//! Black's pawns are judged by the same rules as White's: the mirror image of a
//! pawn structure has the same score for the other side.
use crate::arith::{count_of, sum_of};
use crate::board::{occupied, Coordinate, Piece};
use crate::evaluation::base::{game_black_side, game_white_side};
use crate::evaluation::buffers::{lemma_sorted_same, lemma_sorted_squares, sorted_squares};
use crate::evaluation::lines::{
    clear_line, clear_line_in, line_lists_agree_with_board, on_open_segment,
};
use crate::evaluation::pawns::{
    beyond, doubled_pawns, has_pawn, lemma_sorted_pawns, live_pawn, live_pawns, on_file,
    on_file_between, pawn_list, pawn_structure, pieces_in_range, sorted_pawns, PawnSide,
};
use crate::evaluation::pieces::king_in_range;
use crate::evaluation::values::{in_range, COORD_LIMIT, PROMO_LIMIT};
use crate::game::GameState;
use vstd::prelude::*;

verus! {

/// A square seen from the other side of the board, whose ranks sum up to `c`.
pub open spec fn flip(c: int) -> spec_fn((i64, i64)) -> (i64, i64) {
    |p: (i64, i64)| (p.0, (c - p.1) as i64)
}

pub open spec fn flip_king(king: Option<Coordinate>, c: int) -> Option<Coordinate> {
    match king {
        Some(k) => Some(Coordinate { x: k.x, y: (c - k.y) as i64 }),
        None => None,
    }
}

/// The squares of `b` are those of `a`, flipped, in any order.
pub open spec fn flipped(a: Seq<(i64, i64)>, b: Seq<(i64, i64)>, c: int) -> bool {
    b.to_multiset() == a.map_values(flip(c)).to_multiset()
}

/// A square is the image of one in a list.
pub open spec fn has_source(a: Seq<(i64, i64)>, q: (i64, i64), c: int) -> bool {
    exists|i: int| 0 <= i < a.len() && flip(c)(#[trigger] a[i]) == q
}

/// One side's pawns are the mirror image of the other's.
pub open spec fn mirrors(a: PawnSide, b: PawnSide, c: int) -> bool {
    &&& a.wf()
    &&& b.wf()
    &&& -2 * COORD_LIMIT <= c <= 2 * COORD_LIMIT
    &&& b.white == !a.white
    &&& b.phase == a.phase
    &&& b.promo == c - a.promo
    &&& flipped(a.own, b.own, c)
    &&& flipped(a.enemy, b.enemy, c)
    &&& b.own_king == flip_king(a.own_king, c)
    &&& b.enemy_king == flip_king(a.enemy_king, c)
    &&& forall|x: int, y: int| #[trigger]
        occupied(a.pieces, x, y) == occupied(b.pieces, x, c - y)
    &&& forall|i: int|
        0 <= i < a.own.len() ==> ways_agree(a, b, c, #[trigger] a.own[i])
}

/// A pawn has not reached its promotion rank.
pub open spec fn short_of(p: (i64, i64), white: bool, promo: int) -> bool {
    if white {
        p.1 < promo
    } else {
        p.1 > promo
    }
}

/// All of a side's pawns can still promote.
pub open spec fn can_promote(side: PawnSide) -> bool {
    forall|i: int|
        0 <= i < side.own.len() ==> short_of(
            #[trigger] side.own[i],
            side.white,
            side.promo as int,
        )
}

/// No enemy pawn stands beside the way of a passed pawn, just past its promotion
/// rank. Black's way is said to be guarded from there, and White's is not.
spec fn none_past_promotion(side: PawnSide) -> bool {
    forall|i: int|
        0 <= i < side.own.len() && side.passed(#[trigger] side.own[i]) ==> !has_pawn(
            side.enemy,
            side.own[i].0 - 1,
            side.promo + side.dir(),
        ) && !has_pawn(side.enemy, side.own[i].0 + 1, side.promo + side.dir())
}

/// The way of a pawn to its promotion rank is as free as that of its image.
pub open spec fn ways_agree(a: PawnSide, b: PawnSide, c: int, p: (i64, i64)) -> bool {
    clear_line_in(
        a.indices,
        Coordinate { x: p.0, y: p.1 },
        Coordinate { x: p.0, y: a.promo },
    ) == clear_line_in(
        b.indices,
        Coordinate { x: p.0, y: (c - p.1) as i64 },
        Coordinate { x: p.0, y: b.promo },
    )
}

proof fn lemma_sum_removed<A>(s: Seq<A>, i: int, f: spec_fn(A) -> int)
    requires
        0 <= i < s.len(),
    ensures
        sum_of(s, f) == sum_of(s.remove(i), f) + f(s[i]),
    decreases s.len(),
{
    if i == s.len() - 1 {
        assert(s.remove(i) =~= s.drop_last());
    } else {
        lemma_sum_removed(s.drop_last(), i, f);
        assert(s.remove(i).drop_last() =~= s.drop_last().remove(i));
        assert(s.remove(i).last() == s.last());
    }
}

/// A sum does not depend on the order.
proof fn lemma_sum_reordered<A>(s: Seq<A>, t: Seq<A>, f: spec_fn(A) -> int)
    requires
        s.to_multiset() == t.to_multiset(),
    ensures
        sum_of(s, f) == sum_of(t, f),
    decreases s.len(),
{
    broadcast use vstd::seq_lib::group_to_multiset_ensures;

    s.to_multiset_ensures();
    t.to_multiset_ensures();
    assert(s.len() == t.len());
    if s.len() > 0 {
        let x = s.last();
        assert(s.contains(x)) by {
            assert(s[s.len() - 1] == x);
        }
        vstd::seq_lib::to_multiset_contains(s, x);
        vstd::seq_lib::to_multiset_contains(t, x);
        let j = choose|j: int| 0 <= j < t.len() && #[trigger] t[j] == x;
        assert(s.remove(s.len() - 1) =~= s.drop_last());
        assert(s.drop_last().to_multiset() =~= t.remove(j).to_multiset());
        lemma_sum_reordered(s.drop_last(), t.remove(j), f);
        lemma_sum_removed(t, j, f);
    }
}

proof fn lemma_sum_mapped(
    s: Seq<(i64, i64)>,
    c: int,
    f: spec_fn((i64, i64)) -> int,
    g: spec_fn((i64, i64)) -> int,
)
    requires
        forall|i: int| 0 <= i < s.len() ==> f(#[trigger] s[i]) == g(flip(c)(s[i])),
    ensures
        sum_of(s, f) == sum_of(s.map_values(flip(c)), g),
    decreases s.len(),
{
    if s.len() > 0 {
        let t = s.map_values(flip(c));
        assert(t.drop_last() =~= s.drop_last().map_values(flip(c)));
        assert forall|i: int| 0 <= i < s.drop_last().len() implies f(
            #[trigger] s.drop_last()[i],
        ) == g(flip(c)(s.drop_last()[i])) by {
            assert(s[i] == s.drop_last()[i]);
        }
        lemma_sum_mapped(s.drop_last(), c, f, g);
        assert(s[s.len() - 1] == s.last());
    }
}

/// Values that agree on a list and its image have the same sum.
proof fn lemma_sum_flipped(
    a: Seq<(i64, i64)>,
    b: Seq<(i64, i64)>,
    c: int,
    f: spec_fn((i64, i64)) -> int,
    g: spec_fn((i64, i64)) -> int,
)
    requires
        flipped(a, b, c),
        forall|i: int| 0 <= i < a.len() ==> f(#[trigger] a[i]) == g(flip(c)(a[i])),
    ensures
        sum_of(a, f) == sum_of(b, g),
{
    lemma_sum_mapped(a, c, f, g);
    lemma_sum_reordered(a.map_values(flip(c)), b, g);
}

/// One for what is counted.
spec fn tally(f: spec_fn((i64, i64)) -> bool) -> spec_fn((i64, i64)) -> int {
    |p: (i64, i64)|
        if f(p) {
            1
        } else {
            0
        }
}

proof fn lemma_tally(s: Seq<(i64, i64)>, f: spec_fn((i64, i64)) -> bool)
    ensures
        count_of(s, f) == sum_of(s, tally(f)),
    decreases s.len(),
{
    if s.len() > 0 {
        lemma_tally(s.drop_last(), f);
    }
}

/// As many pawns stand in front on the image of a file.
proof fn lemma_count_flipped(
    a: Seq<(i64, i64)>,
    b: Seq<(i64, i64)>,
    c: int,
    file: int,
    y: int,
    above: bool,
)
    requires
        flipped(a, b, c),
        pawn_list(a),
        -2 * COORD_LIMIT <= c <= 2 * COORD_LIMIT,
    ensures
        count_of(a, beyond(file, y, above)) == count_of(b, beyond(file, c - y, !above)),
{
    let f = beyond(file, y, above);
    let g = beyond(file, c - y, !above);
    lemma_tally(a, f);
    lemma_tally(b, g);
    assert forall|i: int| 0 <= i < a.len() implies tally(f)(#[trigger] a[i]) == tally(g)(
        flip(c)(a[i]),
    ) by {}
    lemma_sum_flipped(a, b, c, tally(f), tally(g));
}

/// Each square of a list has its image in the other.
proof fn lemma_members(a: Seq<(i64, i64)>, b: Seq<(i64, i64)>, c: int)
    requires
        flipped(a, b, c),
        pawn_list(a),
        -2 * COORD_LIMIT <= c <= 2 * COORD_LIMIT,
    ensures
        a.len() == b.len(),
        forall|x: int, y: int| #[trigger] has_pawn(a, x, y) == has_pawn(b, x, c - y),
        forall|x: int| #[trigger] on_file(a, x) == on_file(b, x),
        forall|x: int, lo: int, hi: int| #[trigger]
            on_file_between(a, x, lo, hi) == on_file_between(b, x, c - hi, c - lo),
        forall|i: int| 0 <= i < a.len() ==> b.contains(flip(c)(#[trigger] a[i])),
        forall|j: int| 0 <= j < b.len() ==> has_source(a, #[trigger] b[j], c),
{
    let t = a.map_values(flip(c));
    t.to_multiset_ensures();
    b.to_multiset_ensures();
    assert forall|i: int| 0 <= i < a.len() implies b.contains(flip(c)(#[trigger] a[i])) by {
        assert(t[i] == flip(c)(a[i]));
        assert(t.contains(t[i]));
        vstd::seq_lib::to_multiset_contains(t, t[i]);
        vstd::seq_lib::to_multiset_contains(b, t[i]);
    }
    assert forall|j: int| 0 <= j < b.len() implies has_source(a, #[trigger] b[j], c) by {
        assert(b.contains(b[j]));
        vstd::seq_lib::to_multiset_contains(b, b[j]);
        vstd::seq_lib::to_multiset_contains(t, b[j]);
        let i = choose|i: int| 0 <= i < t.len() && #[trigger] t[i] == b[j];
        assert(flip(c)(a[i]) == b[j]);
    }
    assert forall|x: int, y: int| #[trigger] has_pawn(a, x, y) == has_pawn(b, x, c - y) by {
        lemma_between(a, b, c, x, y, y);
    }
    assert forall|x: int, lo: int, hi: int| #[trigger]
        on_file_between(a, x, lo, hi) == on_file_between(b, x, c - hi, c - lo) by {
        lemma_between(a, b, c, x, lo, hi);
    }
    assert forall|x: int| #[trigger] on_file(a, x) == on_file(b, x) by {
        if on_file(a, x) {
            let i = choose|i: int| 0 <= i < a.len() && (#[trigger] a[i]).0 == x;
            let q = flip(c)(a[i]);
            let j = choose|j: int| 0 <= j < b.len() && #[trigger] b[j] == q;
            assert(b[j].0 == x);
        }
        if on_file(b, x) {
            let j = choose|j: int| 0 <= j < b.len() && (#[trigger] b[j]).0 == x;
            assert(has_source(a, b[j], c));
            let i = choose|i: int| 0 <= i < a.len() && flip(c)(#[trigger] a[i]) == b[j];
            assert(a[i].0 == x);
        }
    }
}

proof fn lemma_between(
    a: Seq<(i64, i64)>,
    b: Seq<(i64, i64)>,
    c: int,
    x: int,
    lo: int,
    hi: int,
)
    requires
        pawn_list(a),
        -2 * COORD_LIMIT <= c <= 2 * COORD_LIMIT,
        forall|i: int| 0 <= i < a.len() ==> b.contains(flip(c)(#[trigger] a[i])),
        forall|j: int| 0 <= j < b.len() ==> has_source(a, #[trigger] b[j], c),
    ensures
        on_file_between(a, x, lo, hi) == on_file_between(b, x, c - hi, c - lo),
        lo == hi ==> has_pawn(a, x, lo) == has_pawn(b, x, c - lo),
{
    if on_file_between(a, x, lo, hi) {
        let i = choose|i: int|
            0 <= i < a.len() && (#[trigger] a[i]).0 == x && lo <= a[i].1 <= hi;
        let q = flip(c)(a[i]);
        assert(b.contains(q));
        let j = choose|j: int| 0 <= j < b.len() && #[trigger] b[j] == q;
        assert(b[j].0 == x && b[j].1 == c - a[i].1);
    }
    if on_file_between(b, x, c - hi, c - lo) {
        let j = choose|j: int|
            0 <= j < b.len() && (#[trigger] b[j]).0 == x && c - hi <= b[j].1 <= c - lo;
        assert(has_source(a, b[j], c));
        let i = choose|i: int| 0 <= i < a.len() && flip(c)(#[trigger] a[i]) == b[j];
        assert(a[i].0 == x && c - a[i].1 == b[j].1);
    }
    if lo == hi {
        assert(has_pawn(a, x, lo) == on_file_between(a, x, lo, hi)) by {
            if has_pawn(a, x, lo) {
                let i = choose|i: int|
                    0 <= i < a.len() && (#[trigger] a[i]).0 == x && a[i].1 == lo;
                assert(a[i].0 == x && lo <= a[i].1 <= hi);
            }
            if on_file_between(a, x, lo, hi) {
                let i = choose|i: int|
                    0 <= i < a.len() && (#[trigger] a[i]).0 == x && lo <= a[i].1 <= hi;
                assert(a[i].0 == x && a[i].1 == lo);
            }
        }
        assert(has_pawn(b, x, c - lo) == on_file_between(b, x, c - hi, c - lo)) by {
            if has_pawn(b, x, c - lo) {
                let i = choose|i: int|
                    0 <= i < b.len() && (#[trigger] b[i]).0 == x && b[i].1 == c - lo;
                assert(b[i].0 == x && c - hi <= b[i].1 <= c - lo);
            }
            if on_file_between(b, x, c - hi, c - lo) {
                let i = choose|i: int|
                    0 <= i < b.len() && (#[trigger] b[i]).0 == x && c - hi <= b[i].1 <= c - lo;
                assert(b[i].0 == x && b[i].1 == c - lo);
            }
        }
    }
}

/// The files that pawns stand on.
spec fn files(s: Seq<(i64, i64)>) -> Set<int>
    decreases s.len(),
{
    if s.len() == 0 {
        Set::empty()
    } else {
        files(s.drop_last()).insert(s.last().0 as int)
    }
}

proof fn lemma_files(s: Seq<(i64, i64)>)
    ensures
        files(s).finite(),
        doubled_pawns(s) + files(s).len() == s.len(),
        forall|x: int| #[trigger] files(s).contains(x) == on_file(s, x),
    decreases s.len(),
{
    if s.len() > 0 {
        let t = s.drop_last();
        lemma_files(t);
        assert forall|x: int| #[trigger] files(s).contains(x) == on_file(s, x) by {
            if on_file(t, x) {
                let i = choose|i: int| 0 <= i < t.len() && (#[trigger] t[i]).0 == x;
                assert(s[i].0 == x);
            }
            if on_file(s, x) {
                let i = choose|i: int| 0 <= i < s.len() && (#[trigger] s[i]).0 == x;
                if i < t.len() {
                    assert(t[i].0 == x);
                }
            }
            if x == s.last().0 {
                assert(s[s.len() - 1].0 == x);
            }
        }
    }
}

/// What is said of a pawn holds of its image.
proof fn lemma_pawn_mirrored(a: PawnSide, b: PawnSide, c: int, p: (i64, i64))
    requires
        mirrors(a, b, c),
        none_past_promotion(a),
        a.own.contains(p),
    ensures
        a.isolated(p) == b.isolated(flip(c)(p)),
        a.backward(p) == b.backward(flip(c)(p)),
        a.passed(p) == b.passed(flip(c)(p)),
        a.candidate(p) == b.candidate(flip(c)(p)),
        a.connected(p) == b.connected(flip(c)(p)),
        a.rel_rank(p) == b.rel_rank(flip(c)(p)),
        a.passed(p) ==> a.passed_value(p) == b.passed_value(flip(c)(p)),
{
    let q = flip(c)(p);
    let (x, y) = (p.0 as int, p.1 as int);
    let k = choose|k: int| 0 <= k < a.own.len() && #[trigger] a.own[k] == p;
    assert(a.own[k].1 == y);
    assert(q.1 == c - y);
    lemma_members(a.own, b.own, c);
    lemma_members(a.enemy, b.enemy, c);
    lemma_ahead(a, b, c, x - 1, y);
    lemma_ahead(a, b, c, x + 1, y);
    lemma_count_flipped(a.enemy, b.enemy, c, x, y, a.white);
    lemma_count_flipped(a.enemy, b.enemy, c, x - 1, y, a.white);
    lemma_count_flipped(a.enemy, b.enemy, c, x + 1, y, a.white);
    lemma_count_flipped(a.own, b.own, c, x - 1, y, !a.white);
    lemma_count_flipped(a.own, b.own, c, x + 1, y, !a.white);
    let d = a.dir();
    assert(occupied(a.pieces, x, y + d) == occupied(b.pieces, x, c - (y + d)));
    assert(has_pawn(a.enemy, x - 1, y + 2 * d) == has_pawn(b.enemy, x - 1, c - (y + 2 * d)));
    assert(has_pawn(a.enemy, x + 1, y + 2 * d) == has_pawn(b.enemy, x + 1, c - (y + 2 * d)));
    assert(has_pawn(a.own, x - 1, y - d) == has_pawn(b.own, x - 1, c - (y - d)));
    assert(has_pawn(a.own, x + 1, y - d) == has_pawn(b.own, x + 1, c - (y - d)));
    assert(ways_agree(a, b, c, a.own[k]));
    assert(a.can_advance(p) == b.can_advance(q));
    assert(a.safe_advance(p) == b.safe_advance(q));
    if a.passed(p) {
        let (lo, hi) = if a.white {
            (y + 2, a.promo as int)
        } else {
            (a.promo as int, y - 2)
        };
        assert(!has_pawn(a.enemy, x - 1, a.promo + d) && !has_pawn(a.enemy, x + 1, a.promo + d));
        assert(has_pawn(a.enemy, x - 1, a.promo + d) == has_pawn(
            b.enemy,
            x - 1,
            c - (a.promo + d),
        ));
        assert(has_pawn(a.enemy, x + 1, a.promo + d) == has_pawn(
            b.enemy,
            x + 1,
            c - (a.promo + d),
        ));
        assert(on_file_between(a.enemy, x - 1, lo, hi) == on_file_between(
            b.enemy,
            x - 1,
            c - hi,
            c - lo,
        ));
        assert(on_file_between(a.enemy, x + 1, lo, hi) == on_file_between(
            b.enemy,
            x + 1,
            c - hi,
            c - lo,
        ));
        if a.white {
            lemma_one_lower(b.enemy, x - 1, b.promo as int, q.1 - 2);
            lemma_one_lower(b.enemy, x + 1, b.promo as int, q.1 - 2);
        } else {
            lemma_one_lower(a.enemy, x - 1, a.promo as int, y - 2);
            lemma_one_lower(a.enemy, x + 1, a.promo as int, y - 2);
        }
        assert(a.safe_path(p) == b.safe_path(q));
    }
    assert(PawnSide::king_closeness(a.own_king, p) == PawnSide::king_closeness(b.own_king, q));
    assert(PawnSide::king_closeness(a.enemy_king, p) == PawnSide::king_closeness(b.enemy_king, q));
}

/// A range reaches one rank lower to no effect, where no pawn stands there.
proof fn lemma_one_lower(s: Seq<(i64, i64)>, file: int, lo: int, hi: int)
    requires
        !has_pawn(s, file, lo - 1),
    ensures
        on_file_between(s, file, lo - 1, hi) == on_file_between(s, file, lo, hi),
{
    if on_file_between(s, file, lo - 1, hi) {
        let i = choose|i: int|
            0 <= i < s.len() && (#[trigger] s[i]).0 == file && lo - 1 <= s[i].1 <= hi;
        assert(s[i].1 != lo - 1);
        assert(s[i].0 == file && lo <= s[i].1 <= hi);
    }
    if on_file_between(s, file, lo, hi) {
        let i = choose|i: int|
            0 <= i < s.len() && (#[trigger] s[i]).0 == file && lo <= s[i].1 <= hi;
        assert(s[i].0 == file && lo - 1 <= s[i].1 <= hi);
    }
}

/// A pawn that has not reached its promotion rank is not passed where an enemy pawn
/// stands past that rank on an adjacent file.
proof fn lemma_none_past_promotion(side: PawnSide)
    requires
        can_promote(side),
    ensures
        none_past_promotion(side),
{
    assert forall|i: int| 0 <= i < side.own.len() && side.passed(
        #[trigger] side.own[i],
    ) implies !has_pawn(side.enemy, side.own[i].0 - 1, side.promo + side.dir()) && !has_pawn(
        side.enemy,
        side.own[i].0 + 1,
        side.promo + side.dir(),
    ) by {
        let p = side.own[i];
        lemma_none_counted(side.enemy, beyond(p.0 - 1, p.1 as int, side.white));
        lemma_none_counted(side.enemy, beyond(p.0 + 1, p.1 as int, side.white));
    }
}

/// Where none is counted, none is there.
proof fn lemma_none_counted(s: Seq<(i64, i64)>, f: spec_fn((i64, i64)) -> bool)
    ensures
        count_of(s, f) == 0 ==> forall|i: int| 0 <= i < s.len() ==> !f(#[trigger] s[i]),
    decreases s.len(),
{
    if s.len() > 0 {
        let t = s.drop_last();
        lemma_none_counted(t, f);
        if count_of(s, f) == 0 {
            assert forall|i: int| 0 <= i < s.len() implies !f(#[trigger] s[i]) by {
                if i < t.len() {
                    assert(t[i] == s[i]);
                }
            }
        }
    }
}

proof fn lemma_ahead(a: PawnSide, b: PawnSide, c: int, file: int, y: int)
    requires
        mirrors(a, b, c),
    ensures
        a.all_ahead(file, y) == b.all_ahead(file, c - y),
{
    lemma_members(a.own, b.own, c);
    if a.all_ahead(file, y) {
        assert forall|j: int| 0 <= j < b.own.len() && (#[trigger] b.own[j]).0 == file implies (
        if b.white {
            b.own[j].1 > c - y
        } else {
            b.own[j].1 < c - y
        }) by {
            assert(has_source(a.own, b.own[j], c));
            let i = choose|i: int|
                0 <= i < a.own.len() && flip(c)(#[trigger] a.own[i]) == b.own[j];
            assert(a.own[i].0 == file);
        }
    }
    if b.all_ahead(file, c - y) {
        assert forall|i: int| 0 <= i < a.own.len() && (#[trigger] a.own[i]).0 == file implies (
        if a.white {
            a.own[i].1 > y
        } else {
            a.own[i].1 < y
        }) by {
            let q = flip(c)(a.own[i]);
            assert(b.own.contains(q));
            let j = choose|j: int| 0 <= j < b.own.len() && #[trigger] b.own[j] == q;
            assert(b.own[j].0 == file);
        }
    }
}

/// A side's pawns, which all can still promote, have the score of their mirror
/// image.
pub proof fn mirrored_pawns_score_the_same(a: PawnSide, b: PawnSide, c: int)
    requires
        mirrors(a, b, c),
        can_promote(a),
    ensures
        a.score() == b.score(),
{
    lemma_none_past_promotion(a);
    assert forall|i: int| 0 <= i < a.own.len() implies a.passed_term()(#[trigger] a.own[i])
        == b.passed_term()(flip(c)(a.own[i])) && a.candidate_term()(a.own[i])
        == b.candidate_term()(flip(c)(a.own[i])) && a.connected_term()(a.own[i])
        == b.connected_term()(flip(c)(a.own[i])) && a.isolated_term()(a.own[i])
        == b.isolated_term()(flip(c)(a.own[i])) && a.backward_term()(a.own[i])
        == b.backward_term()(flip(c)(a.own[i])) by {
        assert(a.own.contains(a.own[i]));
        lemma_pawn_mirrored(a, b, c, a.own[i]);
    }
    lemma_sum_flipped(a.own, b.own, c, a.passed_term(), b.passed_term());
    lemma_sum_flipped(a.own, b.own, c, a.candidate_term(), b.candidate_term());
    lemma_sum_flipped(a.own, b.own, c, a.connected_term(), b.connected_term());
    lemma_sum_flipped(a.own, b.own, c, a.isolated_term(), b.isolated_term());
    lemma_sum_flipped(a.own, b.own, c, a.backward_term(), b.backward_term());
    lemma_members(a.own, b.own, c);
    lemma_files(a.own);
    lemma_files(b.own);
    assert(files(a.own) =~= files(b.own));
}

/// A piece on the flipped square, of the other color.
pub open spec fn flip_piece(c: int) -> spec_fn((i64, i64, Piece)) -> (i64, i64, Piece) {
    |p: (i64, i64, Piece)|
        (
            p.0,
            (c - p.1) as i64,
            Piece { piece_type: p.2.piece_type, color: p.2.color.opponent_spec() },
        )
}

/// The pawns of a game can be judged: squares are in range, the line lists are
/// those of the board, and every pawn has a side.
pub open spec fn judgeable(game: GameState) -> bool {
    &&& pieces_in_range(game.board@)
    &&& game.spatial_indices.wf()
    &&& game.spatial_indices.lists(game.board@)
    &&& -PROMO_LIMIT <= game.white_promo_rank <= PROMO_LIMIT
    &&& -PROMO_LIMIT <= game.black_promo_rank <= PROMO_LIMIT
    &&& king_in_range(game.white_king_pos)
    &&& king_in_range(game.black_king_pos)
    &&& 0 <= game.total_phase
    &&& forall|i: int|
        0 <= i < game.board@.len() ==> !((#[trigger] game.board@[i]).2.piece_type is Pawn
            && game.board@[i].2.color is Neutral)
}

/// A game is the mirror image of another: every piece stands on the flipped square
/// with the other color, and promotion ranks and kings are exchanged.
pub open spec fn is_image(game: GameState, image: GameState, c: int) -> bool {
    &&& -2 * COORD_LIMIT <= c <= 2 * COORD_LIMIT
    &&& image.board@.to_multiset() == game.board@.map_values(flip_piece(c)).to_multiset()
    &&& image.white_promo_rank == c - game.black_promo_rank
    &&& image.black_promo_rank == c - game.white_promo_rank
    &&& image.white_king_pos == flip_king(game.black_king_pos, c)
    &&& image.black_king_pos == flip_king(game.white_king_pos, c)
    &&& image.total_phase == game.total_phase
}

/// One for a live pawn on a square.
spec fn pawn_tally(white: bool, promo: int, q: (i64, i64)) -> spec_fn((i64, i64, Piece)) -> int {
    |p: (i64, i64, Piece)|
        if live_pawn(p, white, promo) && (p.0, p.1) == q {
            1
        } else {
            0
        }
}

proof fn lemma_live_count(
    s: Seq<(i64, i64, Piece)>,
    white: bool,
    promo: int,
    q: (i64, i64),
)
    ensures
        live_pawns(s, white, promo).to_multiset().count(q) == sum_of(
            s,
            pawn_tally(white, promo, q),
        ),
    decreases s.len(),
{
    broadcast use vstd::seq_lib::group_to_multiset_ensures;

    if s.len() > 0 {
        lemma_live_count(s.drop_last(), white, promo, q);
        let t = live_pawns(s.drop_last(), white, promo);
        if live_pawn(s.last(), white, promo) {
            assert(t.push((s.last().0, s.last().1)).to_multiset() == t.to_multiset().insert(
                (s.last().0, s.last().1),
            ));
        }
    } else {
        assert(live_pawns(s, white, promo).to_multiset().count(q) == 0);
    }
}

/// Live pawns do not depend on the order of the pieces.
proof fn lemma_live_reordered(
    s: Seq<(i64, i64, Piece)>,
    t: Seq<(i64, i64, Piece)>,
    white: bool,
    promo: int,
)
    requires
        s.to_multiset() == t.to_multiset(),
    ensures
        live_pawns(s, white, promo).to_multiset() == live_pawns(t, white, promo).to_multiset(),
{
    let a = live_pawns(s, white, promo).to_multiset();
    let b = live_pawns(t, white, promo).to_multiset();
    assert forall|q: (i64, i64)| a.count(q) == b.count(q) by {
        lemma_live_count(s, white, promo, q);
        lemma_live_count(t, white, promo, q);
        lemma_sum_reordered(s, t, pawn_tally(white, promo, q));
    }
    assert(a =~= b);
}

/// The live pawns of the flipped pieces are those of the other side, flipped.
proof fn lemma_live_flipped(s: Seq<(i64, i64, Piece)>, white: bool, promo: int, c: int)
    requires
        pieces_in_range(s),
        -2 * COORD_LIMIT <= c <= 2 * COORD_LIMIT,
        forall|i: int|
            0 <= i < s.len() ==> !((#[trigger] s[i]).2.piece_type is Pawn
                && s[i].2.color is Neutral),
    ensures
        live_pawns(s.map_values(flip_piece(c)), !white, c - promo) == live_pawns(
            s,
            white,
            promo,
        ).map_values(flip(c)),
    decreases s.len(),
{
    let t = s.map_values(flip_piece(c));
    if s.len() > 0 {
        let u = s.drop_last();
        assert forall|i: int| 0 <= i < u.len() implies in_range(
            (#[trigger] u[i]).0 as int,
            u[i].1 as int,
        ) && !(u[i].2.piece_type is Pawn && u[i].2.color is Neutral) by {
            assert(u[i] == s[i]);
        }
        lemma_live_flipped(u, white, promo, c);
        assert(t.drop_last() =~= u.map_values(flip_piece(c)));
        assert(t.last() == flip_piece(c)(s.last()));
        assert(s.last() == s[s.len() - 1]);
    }
    assert(live_pawns(t, !white, c - promo) =~= live_pawns(s, white, promo).map_values(flip(c)));
}

/// The sorted pawns of the image are those of the other side, flipped.
proof fn lemma_pawns_flipped(game: GameState, image: GameState, c: int, white: bool, promo: int)
    requires
        judgeable(game),
        judgeable(image),
        is_image(game, image, c),
    ensures
        flipped(
            sorted_pawns(game.board@, white, promo),
            sorted_pawns(image.board@, !white, c - promo),
            c,
        ),
{
    broadcast use vstd::seq_lib::group_to_multiset_ensures;

    let s = game.board@;
    let t = image.board@;
    let u = s.map_values(flip_piece(c));
    let a = live_pawns(s, white, promo);
    let b = live_pawns(t, !white, c - promo);
    lemma_live_flipped(s, white, promo, c);
    lemma_live_reordered(t, u, !white, c - promo);
    lemma_sorted_same(a);
    lemma_sorted_same(b);
    lemma_mapped_same(sorted_squares(a), a, c);
}

proof fn lemma_mapped_same(s: Seq<(i64, i64)>, t: Seq<(i64, i64)>, c: int)
    requires
        s.to_multiset() == t.to_multiset(),
    ensures
        s.map_values(flip(c)).to_multiset() == t.map_values(flip(c)).to_multiset(),
    decreases s.len(),
{
    broadcast use vstd::seq_lib::group_to_multiset_ensures;

    s.to_multiset_ensures();
    t.to_multiset_ensures();
    let a = s.map_values(flip(c));
    let b = t.map_values(flip(c));
    if s.len() > 0 {
        let x = s.last();
        assert(s.contains(x)) by {
            assert(s[s.len() - 1] == x);
        }
        vstd::seq_lib::to_multiset_contains(s, x);
        vstd::seq_lib::to_multiset_contains(t, x);
        let j = choose|j: int| 0 <= j < t.len() && #[trigger] t[j] == x;
        assert(s.remove(s.len() - 1) =~= s.drop_last());
        assert(s.drop_last().to_multiset() =~= t.remove(j).to_multiset());
        lemma_mapped_same(s.drop_last(), t.remove(j), c);
        assert(a.remove(a.len() - 1) =~= s.drop_last().map_values(flip(c)));
        assert(b.remove(j) =~= t.remove(j).map_values(flip(c)));
        assert(a[a.len() - 1] == b[j]);
        lemma_removed(a, a.len() - 1);
        lemma_removed(b, j);
    } else {
        assert(t.len() == 0);
        assert(a =~= b);
    }
}

proof fn lemma_removed(s: Seq<(i64, i64)>, i: int)
    requires
        0 <= i < s.len(),
    ensures
        s.to_multiset() == s.remove(i).to_multiset().insert(s[i]),
{
    broadcast use vstd::seq_lib::group_to_multiset_ensures;

    assert(s.contains(s[i]));
    vstd::seq_lib::to_multiset_contains(s, s[i]);
    assert(s.to_multiset() =~= s.remove(i).to_multiset().insert(s[i]));
}

/// A square is occupied where the flipped one is in the image.
proof fn lemma_occupied_flipped(game: GameState, image: GameState, c: int, x: int, y: int)
    requires
        judgeable(game),
        judgeable(image),
        is_image(game, image, c),
    ensures
        occupied(game.board@, x, y) == occupied(image.board@, x, c - y),
{
    let s = game.board@;
    let t = image.board@;
    let u = s.map_values(flip_piece(c));
    if occupied(s, x, y) {
        let i = choose|i: int| 0 <= i < s.len() && (#[trigger] s[i]).0 == x && s[i].1 == y;
        assert(u[i] == flip_piece(c)(s[i]));
        assert(u.contains(u[i]));
        vstd::seq_lib::to_multiset_contains(u, u[i]);
        vstd::seq_lib::to_multiset_contains(t, u[i]);
        let j = choose|j: int| 0 <= j < t.len() && #[trigger] t[j] == u[i];
        assert(t[j].0 == x && t[j].1 == c - y);
    }
    if occupied(t, x, c - y) {
        let j = choose|j: int| 0 <= j < t.len() && (#[trigger] t[j]).0 == x && t[j].1 == c - y;
        assert(t.contains(t[j]));
        vstd::seq_lib::to_multiset_contains(t, t[j]);
        vstd::seq_lib::to_multiset_contains(u, t[j]);
        let i = choose|i: int| 0 <= i < u.len() && #[trigger] u[i] == t[j];
        assert(u[i] == flip_piece(c)(s[i]));
        assert(s[i].0 == x && s[i].1 == y);
    }
}

proof fn lemma_sides_mirror(
    game: GameState,
    image: GameState,
    c: int,
    a: PawnSide,
    b: PawnSide,
)
    requires
        judgeable(game),
        judgeable(image),
        is_image(game, image, c),
        (a == game_white_side(game) && b == game_black_side(image)) || (a == game_black_side(game)
            && b == game_white_side(image)),
    ensures
        mirrors(a, b, c),
        can_promote(a),
{
    let w = game.white_promo_rank as int;
    let k = game.black_promo_rank as int;
    lemma_pawns_flipped(game, image, c, true, w);
    lemma_pawns_flipped(game, image, c, false, k);
    lemma_sorted_pawns(game.board@, true, w);
    lemma_sorted_pawns(game.board@, false, k);
    lemma_sorted_pawns(image.board@, true, c - k);
    lemma_sorted_pawns(image.board@, false, c - w);
    assert forall|x: int, y: int| #[trigger] occupied(a.pieces, x, y) == occupied(
        b.pieces,
        x,
        c - y,
    ) by {
        lemma_occupied_flipped(game, image, c, x, y);
    }
    assert forall|i: int| 0 <= i < a.own.len() implies ways_agree(a, b, c, #[trigger] a.own[i]) by {
        let p = a.own[i];
        lemma_ways_agree(a, b, c, p);
    }
    lemma_live(game.board@, a.white, a.promo as int);
}

/// The way of a pawn is free where that of its image is.
proof fn lemma_ways_agree(a: PawnSide, b: PawnSide, c: int, p: (i64, i64))
    requires
        a.indices.lists(a.pieces),
        b.indices.lists(b.pieces),
        in_range(p.0 as int, p.1 as int),
        -2 * COORD_LIMIT <= c <= 2 * COORD_LIMIT,
        b.promo == c - a.promo,
        forall|x: int, y: int| #[trigger]
            occupied(a.pieces, x, y) == occupied(b.pieces, x, c - y),
    ensures
        ways_agree(a, b, c, p),
{
    let from = Coordinate { x: p.0, y: p.1 };
    let to = Coordinate { x: p.0, y: a.promo };
    let from2 = Coordinate { x: p.0, y: (c - p.1) as i64 };
    let to2 = Coordinate { x: p.0, y: b.promo };
    line_lists_agree_with_board(a.indices, a.pieces, from, to);
    line_lists_agree_with_board(b.indices, b.pieces, from2, to2);
    if clear_line(a.pieces, from, to) {
        assert forall|x: int, y: int| #[trigger] occupied(b.pieces, x, y) implies !on_open_segment(
            x,
            y,
            from2,
            to2,
        ) by {
            assert(occupied(a.pieces, x, c - y) == occupied(b.pieces, x, c - (c - y)));
        }
    }
    if clear_line(b.pieces, from2, to2) {
        assert forall|x: int, y: int| #[trigger] occupied(a.pieces, x, y) implies !on_open_segment(
            x,
            y,
            from,
            to,
        ) by {
            assert(occupied(b.pieces, x, c - y));
        }
    }
}

/// Live pawns have not reached their promotion rank.
proof fn lemma_live(s: Seq<(i64, i64, Piece)>, white: bool, promo: int)
    ensures
        forall|i: int|
            0 <= i < sorted_pawns(s, white, promo).len() ==> short_of(
                #[trigger] sorted_pawns(s, white, promo)[i],
                white,
                promo,
            ),
{
    let u = live_pawns(s, white, promo);
    let t = sorted_pawns(s, white, promo);
    lemma_sorted_squares(u);
    lemma_live_each(s, white, promo);
    assert forall|i: int| 0 <= i < t.len() implies short_of(#[trigger] t[i], white, promo) by {
        assert(t.contains(t[i]));
        assert(u.contains(t[i]));
        let k = choose|k: int| 0 <= k < u.len() && #[trigger] u[k] == t[i];
        assert(short_of(u[k], white, promo));
    }
}

proof fn lemma_live_each(s: Seq<(i64, i64, Piece)>, white: bool, promo: int)
    ensures
        forall|i: int|
            0 <= i < live_pawns(s, white, promo).len() ==> short_of(
                #[trigger] live_pawns(s, white, promo)[i],
                white,
                promo,
            ),
    decreases s.len(),
{
    if s.len() > 0 {
        lemma_live_each(s.drop_last(), white, promo);
        let t = live_pawns(s.drop_last(), white, promo);
        let u = live_pawns(s, white, promo);
        assert forall|i: int| 0 <= i < u.len() implies short_of(#[trigger] u[i], white, promo) by {
            if i < t.len() {
                assert(u[i] == t[i]);
            }
        }
    }
}

/// Black's pawns are judged by the same rules as White's: a game's pawn structure
/// has the opposite score in the mirror image of the game.
pub proof fn mirrored_structure_is_negated(game: GameState, image: GameState, c: int)
    requires
        judgeable(game),
        judgeable(image),
        is_image(game, image, c),
    ensures
        pawn_structure(game_white_side(image), game_black_side(image)) == -pawn_structure(
            game_white_side(game),
            game_black_side(game),
        ),
{
    lemma_sides_mirror(game, image, c, game_white_side(game), game_black_side(image));
    lemma_sides_mirror(game, image, c, game_black_side(game), game_white_side(image));
    mirrored_pawns_score_the_same(game_white_side(game), game_black_side(image), c);
    mirrored_pawns_score_the_same(game_black_side(game), game_white_side(image), c);
}

} // verus!
