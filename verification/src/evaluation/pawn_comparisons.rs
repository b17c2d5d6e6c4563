//! How pawns compare, at any place of the board and at any phase.
use crate::arith::{count_of, sum_of, tdiv};
use crate::board::{occupied, Coordinate};
use crate::evaluation::lines::{clear_line, clear_line_in, line_lists_agree_with_board};
use crate::evaluation::pawns::{
    doubled_pawns, has_pawn, on_file, on_file_between, pawn_structure, PawnSide,
    EG_PASSED_SAFE_PATH_BONUS, MG_PASSED_SAFE_PATH_BONUS,
};
use crate::evaluation::values::{is_phase, tapered, COORD_LIMIT};
use vstd::prelude::*;

verus! {

/// A square of a layout that is moved over the board.
pub open spec fn square(x: int, y: int, dx: int, dy: int) -> (i64, i64) {
    ((x + dx) as i64, (y + dy) as i64)
}

/// Where a layout is moved to.
pub open spec fn moved_by(dx: int, dy: int) -> bool {
    -COORD_LIMIT <= dx <= COORD_LIMIT && -COORD_LIMIT <= dy <= COORD_LIMIT
}

/// The pawns of both sides in a layout with these pawns and kings and nothing else,
/// where White promotes on the eighth rank of the layout and Black on the first.
pub open spec fn laid_out(
    w: PawnSide,
    b: PawnSide,
    white: Seq<(i64, i64)>,
    black: Seq<(i64, i64)>,
    white_king: (i64, i64),
    black_king: (i64, i64),
    dy: int,
    phase: int,
) -> bool {
    &&& w.white && !b.white
    &&& w.own == white && b.enemy == white
    &&& b.own == black && w.enemy == black
    &&& w.own_king == Some(Coordinate { x: white_king.0, y: white_king.1 })
    &&& w.enemy_king == Some(Coordinate { x: black_king.0, y: black_king.1 })
    &&& b.own_king == w.enemy_king && b.enemy_king == w.own_king
    &&& w.promo == 8 + dy && b.promo == 1 + dy
    &&& w.phase == phase && b.phase == phase
    &&& b.pieces == w.pieces && b.indices == w.indices
    &&& w.indices.lists(w.pieces)
    &&& forall|x: int, y: int| #[trigger]
        occupied(w.pieces, x, y) == (has_pawn(white, x, y) || has_pawn(black, x, y) || (
        white_king.0 == x && white_king.1 == y) || (black_king.0 == x && black_king.1 == y))
}

/// What is said of a list of at most three pawns, one by one.
proof fn lemma_few(s: Seq<(i64, i64)>)
    requires
        s.len() <= 3,
    ensures
        forall|f: int| #[trigger]
            on_file(s, f) == ((s.len() > 0 && s[0].0 == f) || (s.len() > 1 && s[1].0 == f) || (
            s.len() > 2 && s[2].0 == f)),
        forall|x: int, y: int| #[trigger]
            has_pawn(s, x, y) == ((s.len() > 0 && s[0].0 == x && s[0].1 == y) || (s.len() > 1
                && s[1].0 == x && s[1].1 == y) || (s.len() > 2 && s[2].0 == x && s[2].1 == y)),
        forall|f: int, lo: int, hi: int| #[trigger]
            on_file_between(s, f, lo, hi) == ((s.len() > 0 && s[0].0 == f && lo <= s[0].1 <= hi)
                || (s.len() > 1 && s[1].0 == f && lo <= s[1].1 <= hi) || (s.len() > 2 && s[2].0
                == f && lo <= s[2].1 <= hi)),
        forall|f: spec_fn((i64, i64)) -> bool| #[trigger]
            count_of(s, f) == (if s.len() > 0 && f(s[0]) {
                1int
            } else {
                0
            }) + (if s.len() > 1 && f(s[1]) {
                1int
            } else {
                0
            }) + (if s.len() > 2 && f(s[2]) {
                1int
            } else {
                0
            }),
        forall|f: spec_fn((i64, i64)) -> int| #[trigger]
            sum_of(s, f) == (if s.len() > 0 {
                f(s[0])
            } else {
                0
            }) + (if s.len() > 1 {
                f(s[1])
            } else {
                0
            }) + (if s.len() > 2 {
                f(s[2])
            } else {
                0
            }),
{
    reveal_with_fuel(count_of, 4);
    reveal_with_fuel(sum_of, 4);
    if s.len() > 0 {
        assert(s.drop_last().len() == s.len() - 1);
    }
}

/// Pawns on files of their own are not doubled.
proof fn lemma_none_doubled(s: Seq<(i64, i64)>)
    requires
        s.len() <= 3,
        forall|i: int, j: int|
            0 <= i < j < s.len() ==> (#[trigger] s[i]).0 != (#[trigger] s[j]).0,
    ensures
        doubled_pawns(s) == 0,
    decreases s.len(),
{
    if s.len() > 0 {
        let t = s.drop_last();
        assert forall|i: int, j: int| 0 <= i < j < t.len() implies (#[trigger] t[i]).0 != (
        #[trigger] t[j]).0 by {
            assert(s[i] == t[i] && s[j] == t[j]);
        }
        lemma_none_doubled(t);
        assert(!on_file(t, s.last().0 as int)) by {
            assert forall|i: int| 0 <= i < t.len() implies (#[trigger] t[i]).0 != s.last().0 by {
                assert(s[i] == t[i]);
                assert(s[s.len() - 1] == s.last());
            }
        }
    }
}

/// The way of a pawn is free where no piece stands on it.
proof fn lemma_way(side: PawnSide, p: (i64, i64))
    requires
        side.indices.lists(side.pieces),
    ensures
        clear_line_in(
            side.indices,
            Coordinate { x: p.0, y: p.1 },
            Coordinate { x: p.0, y: side.promo },
        ) == clear_line(
            side.pieces,
            Coordinate { x: p.0, y: p.1 },
            Coordinate { x: p.0, y: side.promo },
        ),
{
    line_lists_agree_with_board(
        side.indices,
        side.pieces,
        Coordinate { x: p.0, y: p.1 },
        Coordinate { x: p.0, y: side.promo },
    );
}

proof fn lemma_supported(w: PawnSide, b: PawnSide, dx: int, dy: int, phase: int)
    requires
        moved_by(dx, dy),
        is_phase(phase),
        laid_out(
            w,
            b,
            seq![square(3, 3, dx, dy), square(4, 4, dx, dy), square(5, 3, dx, dy)],
            Seq::<(i64, i64)>::empty(),
            square(5, 1, dx, dy),
            square(5, 8, dx, dy),
            dy,
            phase,
        ),
    ensures
        pawn_structure(w, b) == 95 + tapered(40, 80, phase) + tapered(40, 80, phase) +
            tdiv(tapered(8, 15, phase) * 3, 2) + tapered(40, 80, phase),
{
    lemma_few(w.own);
    lemma_few(b.own);
    lemma_none_doubled(w.own);
    lemma_none_doubled(b.own);
    let path = tapered(
        MG_PASSED_SAFE_PATH_BONUS as int,
        EG_PASSED_SAFE_PATH_BONUS as int,
        phase,
    );
    let pw_3_3 = square(3, 3, dx, dy);
    assert(!w.isolated(pw_3_3));
    assert(!w.backward(pw_3_3));
    assert(w.passed(pw_3_3));
    assert(!w.candidate(pw_3_3));
    assert(!w.connected(pw_3_3));
    assert(w.rel_rank(pw_3_3) == 1);
    assert(w.can_advance(pw_3_3));
    assert(w.safe_advance(pw_3_3));
    lemma_way(w, pw_3_3);
    assert(w.safe_path(pw_3_3));
    assert(PawnSide::king_closeness(w.own_king, pw_3_3) == 5);
    assert(PawnSide::king_closeness(w.enemy_king, pw_3_3) == 2);
    assert(w.passed_value(pw_3_3) == 26 + path);
    let pw_4_4 = square(4, 4, dx, dy);
    assert(!w.isolated(pw_4_4));
    assert(!w.backward(pw_4_4));
    assert(w.passed(pw_4_4));
    assert(!w.candidate(pw_4_4));
    assert(w.connected(pw_4_4));
    assert(w.rel_rank(pw_4_4) == 2);
    assert(w.can_advance(pw_4_4));
    assert(w.safe_advance(pw_4_4));
    lemma_way(w, pw_4_4);
    assert(w.safe_path(pw_4_4));
    assert(PawnSide::king_closeness(w.own_king, pw_4_4) == 4);
    assert(PawnSide::king_closeness(w.enemy_king, pw_4_4) == 3);
    assert(w.passed_value(pw_4_4) == 43 + path);
    let pw_5_3 = square(5, 3, dx, dy);
    assert(!w.isolated(pw_5_3));
    assert(!w.backward(pw_5_3));
    assert(w.passed(pw_5_3));
    assert(!w.candidate(pw_5_3));
    assert(!w.connected(pw_5_3));
    assert(w.rel_rank(pw_5_3) == 1);
    assert(w.can_advance(pw_5_3));
    assert(w.safe_advance(pw_5_3));
    lemma_way(w, pw_5_3);
    assert(w.safe_path(pw_5_3));
    assert(PawnSide::king_closeness(w.own_king, pw_5_3) == 5);
    assert(PawnSide::king_closeness(w.enemy_king, pw_5_3) == 2);
    assert(w.passed_value(pw_5_3) == 26 + path);
}

proof fn lemma_alone(w: PawnSide, b: PawnSide, dx: int, dy: int, phase: int)
    requires
        moved_by(dx, dy),
        is_phase(phase),
        laid_out(
            w,
            b,
            seq![square(4, 4, dx, dy)],
            Seq::<(i64, i64)>::empty(),
            square(5, 1, dx, dy),
            square(5, 8, dx, dy),
            dy,
            phase,
        ),
    ensures
        pawn_structure(w, b) == 43 + tapered(40, 80, phase) - tapered(10, 20, phase),
{
    lemma_few(w.own);
    lemma_few(b.own);
    lemma_none_doubled(w.own);
    lemma_none_doubled(b.own);
    let path = tapered(
        MG_PASSED_SAFE_PATH_BONUS as int,
        EG_PASSED_SAFE_PATH_BONUS as int,
        phase,
    );
    let pw_4_4 = square(4, 4, dx, dy);
    assert(w.isolated(pw_4_4));
    assert(!w.backward(pw_4_4));
    assert(w.passed(pw_4_4));
    assert(!w.candidate(pw_4_4));
    assert(!w.connected(pw_4_4));
    assert(w.rel_rank(pw_4_4) == 2);
    assert(w.can_advance(pw_4_4));
    assert(w.safe_advance(pw_4_4));
    lemma_way(w, pw_4_4);
    assert(w.safe_path(pw_4_4));
    assert(PawnSide::king_closeness(w.own_king, pw_4_4) == 4);
    assert(PawnSide::king_closeness(w.enemy_king, pw_4_4) == 3);
    assert(w.passed_value(pw_4_4) == 43 + path);
}

proof fn lemma_chained(w: PawnSide, b: PawnSide, dx: int, dy: int, phase: int)
    requires
        moved_by(dx, dy),
        is_phase(phase),
        laid_out(
            w,
            b,
            seq![square(4, 4, dx, dy), square(5, 5, dx, dy)],
            Seq::<(i64, i64)>::empty(),
            square(0, 0, dx, dy),
            square(0, 10, dx, dy),
            dy,
            phase,
        ),
    ensures
        pawn_structure(w, b) == 123 + tapered(40, 80, phase) + tapered(40, 80, phase) +
            tdiv(tapered(8, 15, phase) * 3, 2),
{
    lemma_few(w.own);
    lemma_few(b.own);
    lemma_none_doubled(w.own);
    lemma_none_doubled(b.own);
    let path = tapered(
        MG_PASSED_SAFE_PATH_BONUS as int,
        EG_PASSED_SAFE_PATH_BONUS as int,
        phase,
    );
    let pw_4_4 = square(4, 4, dx, dy);
    assert(!w.isolated(pw_4_4));
    assert(!w.backward(pw_4_4));
    assert(w.passed(pw_4_4));
    assert(!w.candidate(pw_4_4));
    assert(!w.connected(pw_4_4));
    assert(w.rel_rank(pw_4_4) == 2);
    assert(w.can_advance(pw_4_4));
    assert(w.safe_advance(pw_4_4));
    lemma_way(w, pw_4_4);
    assert(w.safe_path(pw_4_4));
    assert(PawnSide::king_closeness(w.own_king, pw_4_4) == 3);
    assert(PawnSide::king_closeness(w.enemy_king, pw_4_4) == 1);
    assert(w.passed_value(pw_4_4) == 46 + path);
    let pw_5_5 = square(5, 5, dx, dy);
    assert(!w.isolated(pw_5_5));
    assert(!w.backward(pw_5_5));
    assert(w.passed(pw_5_5));
    assert(!w.candidate(pw_5_5));
    assert(w.connected(pw_5_5));
    assert(w.rel_rank(pw_5_5) == 3);
    assert(w.can_advance(pw_5_5));
    assert(w.safe_advance(pw_5_5));
    lemma_way(w, pw_5_5);
    assert(w.safe_path(pw_5_5));
    assert(PawnSide::king_closeness(w.own_king, pw_5_5) == 2);
    assert(PawnSide::king_closeness(w.enemy_king, pw_5_5) == 2);
    assert(w.passed_value(pw_5_5) == 77 + path);
}

proof fn lemma_apart(w: PawnSide, b: PawnSide, dx: int, dy: int, phase: int)
    requires
        moved_by(dx, dy),
        is_phase(phase),
        laid_out(
            w,
            b,
            seq![square(4, 4, dx, dy), square(8, 4, dx, dy)],
            Seq::<(i64, i64)>::empty(),
            square(0, 0, dx, dy),
            square(0, 10, dx, dy),
            dy,
            phase,
        ),
    ensures
        pawn_structure(w, b) == 86 + tapered(40, 80, phase) - tapered(10, 20, phase) +
            tapered(40, 80, phase) - tapered(10, 20, phase),
{
    lemma_few(w.own);
    lemma_few(b.own);
    lemma_none_doubled(w.own);
    lemma_none_doubled(b.own);
    let path = tapered(
        MG_PASSED_SAFE_PATH_BONUS as int,
        EG_PASSED_SAFE_PATH_BONUS as int,
        phase,
    );
    let pw_4_4 = square(4, 4, dx, dy);
    assert(w.isolated(pw_4_4));
    assert(!w.backward(pw_4_4));
    assert(w.passed(pw_4_4));
    assert(!w.candidate(pw_4_4));
    assert(!w.connected(pw_4_4));
    assert(w.rel_rank(pw_4_4) == 2);
    assert(w.can_advance(pw_4_4));
    assert(w.safe_advance(pw_4_4));
    lemma_way(w, pw_4_4);
    assert(w.safe_path(pw_4_4));
    assert(PawnSide::king_closeness(w.own_king, pw_4_4) == 3);
    assert(PawnSide::king_closeness(w.enemy_king, pw_4_4) == 1);
    assert(w.passed_value(pw_4_4) == 46 + path);
    let pw_8_4 = square(8, 4, dx, dy);
    assert(w.isolated(pw_8_4));
    assert(!w.backward(pw_8_4));
    assert(w.passed(pw_8_4));
    assert(!w.candidate(pw_8_4));
    assert(!w.connected(pw_8_4));
    assert(w.rel_rank(pw_8_4) == 2);
    assert(w.can_advance(pw_8_4));
    assert(w.safe_advance(pw_8_4));
    lemma_way(w, pw_8_4);
    assert(w.safe_path(pw_8_4));
    assert(PawnSide::king_closeness(w.own_king, pw_8_4) == 0);
    assert(PawnSide::king_closeness(w.enemy_king, pw_8_4) == 0);
    assert(w.passed_value(pw_8_4) == 40 + path);
}

proof fn lemma_held(w: PawnSide, b: PawnSide, dx: int, dy: int, phase: int)
    requires
        moved_by(dx, dy),
        is_phase(phase),
        laid_out(
            w,
            b,
            seq![square(4, 4, dx, dy), square(5, 5, dx, dy)],
            seq![square(3, 6, dx, dy)],
            square(0, 0, dx, dy),
            square(0, 10, dx, dy),
            dy,
            phase,
        ),
    ensures
        pawn_structure(w, b) == 77 - tapered(8, 12, phase) + tapered(40, 80, phase) +
            tdiv(tapered(8, 15, phase) * 3, 2) + tapered(10, 20, phase),
{
    lemma_few(w.own);
    lemma_few(b.own);
    lemma_none_doubled(w.own);
    lemma_none_doubled(b.own);
    let path = tapered(
        MG_PASSED_SAFE_PATH_BONUS as int,
        EG_PASSED_SAFE_PATH_BONUS as int,
        phase,
    );
    let pw_4_4 = square(4, 4, dx, dy);
    assert(!w.isolated(pw_4_4));
    assert(w.backward(pw_4_4));
    assert(!w.passed(pw_4_4));
    assert(!w.candidate(pw_4_4));
    assert(!w.connected(pw_4_4));
    assert(w.rel_rank(pw_4_4) == 2);
    let pw_5_5 = square(5, 5, dx, dy);
    assert(!w.isolated(pw_5_5));
    assert(!w.backward(pw_5_5));
    assert(w.passed(pw_5_5));
    assert(!w.candidate(pw_5_5));
    assert(w.connected(pw_5_5));
    assert(w.rel_rank(pw_5_5) == 3);
    assert(w.can_advance(pw_5_5));
    assert(w.safe_advance(pw_5_5));
    lemma_way(w, pw_5_5);
    assert(w.safe_path(pw_5_5));
    assert(PawnSide::king_closeness(w.own_king, pw_5_5) == 2);
    assert(PawnSide::king_closeness(w.enemy_king, pw_5_5) == 2);
    assert(w.passed_value(pw_5_5) == 77 + path);
    let pb_3_6 = square(3, 6, dx, dy);
    assert(b.isolated(pb_3_6));
    assert(!b.backward(pb_3_6));
    assert(!b.passed(pb_3_6));
    assert(!b.candidate(pb_3_6));
    assert(!b.connected(pb_3_6));
    assert(b.rel_rank(pb_3_6) == 1);
}

proof fn lemma_backed(w: PawnSide, b: PawnSide, dx: int, dy: int, phase: int)
    requires
        moved_by(dx, dy),
        is_phase(phase),
        laid_out(
            w,
            b,
            seq![square(4, 4, dx, dy), square(5, 3, dx, dy)],
            seq![square(3, 5, dx, dy)],
            square(0, 0, dx, dy),
            square(0, 10, dx, dy),
            dy,
            phase,
        ),
    ensures
        pawn_structure(w, b) == 38 + tapered(8, 15, phase) + tapered(40, 80, phase) +
            tapered(10, 20, phase),
{
    lemma_few(w.own);
    lemma_few(b.own);
    lemma_none_doubled(w.own);
    lemma_none_doubled(b.own);
    let path = tapered(
        MG_PASSED_SAFE_PATH_BONUS as int,
        EG_PASSED_SAFE_PATH_BONUS as int,
        phase,
    );
    let pw_4_4 = square(4, 4, dx, dy);
    assert(!w.isolated(pw_4_4));
    assert(!w.backward(pw_4_4));
    assert(!w.passed(pw_4_4));
    assert(w.candidate(pw_4_4));
    assert(w.connected(pw_4_4));
    assert(w.rel_rank(pw_4_4) == 2);
    let pw_5_3 = square(5, 3, dx, dy);
    assert(!w.isolated(pw_5_3));
    assert(!w.backward(pw_5_3));
    assert(w.passed(pw_5_3));
    assert(!w.candidate(pw_5_3));
    assert(!w.connected(pw_5_3));
    assert(w.rel_rank(pw_5_3) == 1);
    assert(w.can_advance(pw_5_3));
    assert(w.safe_advance(pw_5_3));
    lemma_way(w, pw_5_3);
    assert(w.safe_path(pw_5_3));
    assert(PawnSide::king_closeness(w.own_king, pw_5_3) == 2);
    assert(PawnSide::king_closeness(w.enemy_king, pw_5_3) == 0);
    assert(w.passed_value(pw_5_3) == 24 + path);
    let pb_3_5 = square(3, 5, dx, dy);
    assert(b.isolated(pb_3_5));
    assert(!b.backward(pb_3_5));
    assert(!b.passed(pb_3_5));
    assert(!b.candidate(pb_3_5));
    assert(!b.connected(pb_3_5));
    assert(b.rel_rank(pb_3_5) == 2);
}

proof fn lemma_free(w: PawnSide, b: PawnSide, dx: int, dy: int, phase: int)
    requires
        moved_by(dx, dy),
        is_phase(phase),
        laid_out(
            w,
            b,
            seq![square(4, 4, dx, dy)],
            Seq::<(i64, i64)>::empty(),
            square(0, 0, dx, dy),
            square(10, 10, dx, dy),
            dy,
            phase,
        ),
    ensures
        pawn_structure(w, b) == 46 + tapered(40, 80, phase) - tapered(10, 20, phase),
{
    lemma_few(w.own);
    lemma_few(b.own);
    lemma_none_doubled(w.own);
    lemma_none_doubled(b.own);
    let path = tapered(
        MG_PASSED_SAFE_PATH_BONUS as int,
        EG_PASSED_SAFE_PATH_BONUS as int,
        phase,
    );
    let pw_4_4 = square(4, 4, dx, dy);
    assert(w.isolated(pw_4_4));
    assert(!w.backward(pw_4_4));
    assert(w.passed(pw_4_4));
    assert(!w.candidate(pw_4_4));
    assert(!w.connected(pw_4_4));
    assert(w.rel_rank(pw_4_4) == 2);
    assert(w.can_advance(pw_4_4));
    assert(w.safe_advance(pw_4_4));
    lemma_way(w, pw_4_4);
    assert(w.safe_path(pw_4_4));
    assert(PawnSide::king_closeness(w.own_king, pw_4_4) == 3);
    assert(PawnSide::king_closeness(w.enemy_king, pw_4_4) == 1);
    assert(w.passed_value(pw_4_4) == 46 + path);
}

proof fn lemma_hindered(w: PawnSide, b: PawnSide, dx: int, dy: int, phase: int)
    requires
        moved_by(dx, dy),
        is_phase(phase),
        laid_out(
            w,
            b,
            seq![square(4, 4, dx, dy)],
            seq![square(3, 6, dx, dy)],
            square(0, 0, dx, dy),
            square(10, 10, dx, dy),
            dy,
            phase,
        ),
    ensures
        pawn_structure(w, b) == 0 - tapered(10, 20, phase) + tapered(10, 20, phase),
{
    lemma_few(w.own);
    lemma_few(b.own);
    lemma_none_doubled(w.own);
    lemma_none_doubled(b.own);
    let path = tapered(
        MG_PASSED_SAFE_PATH_BONUS as int,
        EG_PASSED_SAFE_PATH_BONUS as int,
        phase,
    );
    let pw_4_4 = square(4, 4, dx, dy);
    assert(w.isolated(pw_4_4));
    assert(!w.backward(pw_4_4));
    assert(!w.passed(pw_4_4));
    assert(!w.candidate(pw_4_4));
    assert(!w.connected(pw_4_4));
    assert(w.rel_rank(pw_4_4) == 2);
    let pb_3_6 = square(3, 6, dx, dy);
    assert(b.isolated(pb_3_6));
    assert(!b.backward(pb_3_6));
    assert(!b.passed(pb_3_6));
    assert(!b.candidate(pb_3_6));
    assert(!b.connected(pb_3_6));
    assert(b.rel_rank(pb_3_6) == 1);
}

/// Two pawns that support a third are worth having.
pub proof fn supported_pawns_beat_an_isolated_one(
    w: PawnSide,
    b: PawnSide,
    other_w: PawnSide,
    other_b: PawnSide,
    dx: int,
    dy: int,
    phase: int,
)
    requires
        moved_by(dx, dy),
        is_phase(phase),
        laid_out(
            w,
            b,
            seq![square(3, 3, dx, dy), square(4, 4, dx, dy), square(5, 3, dx, dy)],
            Seq::<(i64, i64)>::empty(),
            square(5, 1, dx, dy),
            square(5, 8, dx, dy),
            dy,
            phase,
        ),
        laid_out(
            other_w,
            other_b,
            seq![square(4, 4, dx, dy)],
            Seq::<(i64, i64)>::empty(),
            square(5, 1, dx, dy),
            square(5, 8, dx, dy),
            dy,
            phase,
        ),
    ensures
        pawn_structure(w, b) > pawn_structure(other_w, other_b),
{
    lemma_supported(w, b, dx, dy, phase);
    lemma_alone(other_w, other_b, dx, dy, phase);
}

/// Two connected pawns are worth more than two isolated ones.
pub proof fn connected_pawns_beat_isolated_ones(
    w: PawnSide,
    b: PawnSide,
    other_w: PawnSide,
    other_b: PawnSide,
    dx: int,
    dy: int,
    phase: int,
)
    requires
        moved_by(dx, dy),
        is_phase(phase),
        laid_out(
            w,
            b,
            seq![square(4, 4, dx, dy), square(5, 5, dx, dy)],
            Seq::<(i64, i64)>::empty(),
            square(0, 0, dx, dy),
            square(0, 10, dx, dy),
            dy,
            phase,
        ),
        laid_out(
            other_w,
            other_b,
            seq![square(4, 4, dx, dy), square(8, 4, dx, dy)],
            Seq::<(i64, i64)>::empty(),
            square(0, 0, dx, dy),
            square(0, 10, dx, dy),
            dy,
            phase,
        ),
    ensures
        pawn_structure(w, b) > pawn_structure(other_w, other_b),
{
    lemma_chained(w, b, dx, dy, phase);
    lemma_apart(other_w, other_b, dx, dy, phase);
}

/// Two connected pawns are worth more where no enemy pawn holds the rear one back.
pub proof fn free_pawns_beat_a_backward_one(
    w: PawnSide,
    b: PawnSide,
    other_w: PawnSide,
    other_b: PawnSide,
    dx: int,
    dy: int,
    phase: int,
)
    requires
        moved_by(dx, dy),
        is_phase(phase),
        laid_out(
            w,
            b,
            seq![square(4, 4, dx, dy), square(5, 5, dx, dy)],
            Seq::<(i64, i64)>::empty(),
            square(0, 0, dx, dy),
            square(0, 10, dx, dy),
            dy,
            phase,
        ),
        laid_out(
            other_w,
            other_b,
            seq![square(4, 4, dx, dy), square(5, 5, dx, dy)],
            seq![square(3, 6, dx, dy)],
            square(0, 0, dx, dy),
            square(0, 10, dx, dy),
            dy,
            phase,
        ),
    ensures
        pawn_structure(w, b) > pawn_structure(other_w, other_b),
{
    lemma_chained(w, b, dx, dy, phase);
    lemma_held(other_w, other_b, dx, dy, phase);
}

/// A candidate with a supporter outweighs the pawn that it has to pass.
pub proof fn a_supported_candidate_counts(w: PawnSide, b: PawnSide, dx: int, dy: int, phase: int)
    requires
        moved_by(dx, dy),
        is_phase(phase),
        laid_out(
            w,
            b,
            seq![square(4, 4, dx, dy), square(5, 3, dx, dy)],
            seq![square(3, 5, dx, dy)],
            square(0, 0, dx, dy),
            square(0, 10, dx, dy),
            dy,
            phase,
        ),
    ensures
        pawn_structure(w, b) > 0,
{
    lemma_backed(w, b, dx, dy, phase);
}

/// A pawn is worth more where no enemy pawn guards its advance.
pub proof fn a_safe_advance_counts(
    w: PawnSide,
    b: PawnSide,
    other_w: PawnSide,
    other_b: PawnSide,
    dx: int,
    dy: int,
    phase: int,
)
    requires
        moved_by(dx, dy),
        is_phase(phase),
        laid_out(
            w,
            b,
            seq![square(4, 4, dx, dy)],
            Seq::<(i64, i64)>::empty(),
            square(0, 0, dx, dy),
            square(10, 10, dx, dy),
            dy,
            phase,
        ),
        laid_out(
            other_w,
            other_b,
            seq![square(4, 4, dx, dy)],
            seq![square(3, 6, dx, dy)],
            square(0, 0, dx, dy),
            square(10, 10, dx, dy),
            dy,
            phase,
        ),
    ensures
        pawn_structure(w, b) > pawn_structure(other_w, other_b),
{
    lemma_free(w, b, dx, dy, phase);
    lemma_hindered(other_w, other_b, dx, dy, phase);
}

} // verus!
