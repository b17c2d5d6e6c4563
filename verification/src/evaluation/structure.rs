//! What makes pawns strong and weak.
use crate::arith::{abs, count_of};
use crate::board::{occupied, Coordinate};
use crate::evaluation::pawns::{
    beyond, doubled_pawns, has_pawn, on_file, PawnSide, PASSED_ENEMY_KING_DIST,
    PASSED_FRIENDLY_KING_DIST,
};
use crate::evaluation::tendencies::weights_taper;
use crate::evaluation::values::{is_phase, tapered};
use vstd::prelude::*;

verus! {

/// The ranks that a pawn has to go, counted as its side moves.
pub open spec fn ranks_to_go(side: PawnSide, p: (i64, i64)) -> int {
    if side.white {
        side.promo - p.1
    } else {
        p.1 - side.promo
    }
}

/// An enemy pawn stands ahead on the pawn's own file or beside it.
pub open spec fn can_be_stopped(side: PawnSide, p: (i64, i64)) -> bool {
    exists|i: int|
        0 <= i < side.enemy.len() && abs((#[trigger] side.enemy[i]).0 - p.0) <= 1 && (
        if side.white {
            side.enemy[i].1 > p.1
        } else {
            side.enemy[i].1 < p.1
        })
}

proof fn lemma_counts<A>(s: Seq<A>, f: spec_fn(A) -> bool)
    ensures
        count_of(s, f) > 0 <==> exists|i: int| 0 <= i < s.len() && f(#[trigger] s[i]),
    decreases s.len(),
{
    if s.len() > 0 {
        let t = s.drop_last();
        lemma_counts(t, f);
        if count_of(t, f) > 0 {
            let i = choose|i: int| 0 <= i < t.len() && f(#[trigger] t[i]);
            assert(f(s[i]));
        }
        if exists|i: int| 0 <= i < s.len() && f(#[trigger] s[i]) {
            let i = choose|i: int| 0 <= i < s.len() && f(#[trigger] s[i]);
            if i < t.len() {
                assert(f(t[i]));
            }
        }
        if f(s.last()) {
            assert(f(s[s.len() - 1]));
        }
    }
}

/// A pawn is passed exactly where no enemy pawn stands ahead of it on its own file or
/// beside it, and only such a pawn gains as a passed one.
pub proof fn passed_pawns_cannot_be_stopped(side: PawnSide, p: (i64, i64))
    ensures
        side.passed(p) <==> !can_be_stopped(side, p),
        can_be_stopped(side, p) ==> side.passed_term()(p) == 0,
{
    let f = beyond(p.0 as int, p.1 as int, side.white);
    let g = beyond(p.0 - 1, p.1 as int, side.white);
    let h = beyond(p.0 + 1, p.1 as int, side.white);
    lemma_counts(side.enemy, f);
    lemma_counts(side.enemy, g);
    lemma_counts(side.enemy, h);
    if can_be_stopped(side, p) {
        let i = choose|i: int|
            0 <= i < side.enemy.len() && abs((#[trigger] side.enemy[i]).0 - p.0) <= 1 && (
            if side.white {
                side.enemy[i].1 > p.1
            } else {
                side.enemy[i].1 < p.1
            });
        let q = side.enemy[i];
        assert(f(q) || g(q) || h(q));
    }
    if !side.passed(p) {
        if count_of(side.enemy, f) > 0 {
            let i = choose|i: int| 0 <= i < side.enemy.len() && f(#[trigger] side.enemy[i]);
            assert(abs(side.enemy[i].0 - p.0) <= 1);
        } else if count_of(side.enemy, g) > 0 {
            let i = choose|i: int| 0 <= i < side.enemy.len() && g(#[trigger] side.enemy[i]);
            assert(abs(side.enemy[i].0 - p.0) <= 1);
        } else {
            let i = choose|i: int| 0 <= i < side.enemy.len() && h(#[trigger] side.enemy[i]);
            assert(abs(side.enemy[i].0 - p.0) <= 1);
        }
    }
}

/// A pawn that can never be stopped by a pawn gains by the ranks it still has to go, most
/// where it can go on and no pawn guards the square ahead of it. Far from both kings and
/// with its way not free, that is all.
pub proof fn passed_pawns_gain_by_rank(side: PawnSide, p: (i64, i64), ahead: int)
    requires
        !can_be_stopped(side, p),
        !side.safe_path(p),
        side.own_king is None,
        side.enemy_king is None,
        ahead == (if side.white {
            p.1 + 1
        } else {
            p.1 - 1
        }),
    ensures
        ({
            let v = side.passed_term()(p);
            let free = !occupied(side.pieces, p.0 as int, ahead);
            let guarded = if side.white {
                has_pawn(side.enemy, p.0 - 1, p.1 + 2) || has_pawn(side.enemy, p.0 + 1, p.1 + 2)
            } else {
                has_pawn(side.enemy, p.0 - 1, p.1 - 2) || has_pawn(side.enemy, p.0 + 1, p.1 - 2)
            };
            let d = ranks_to_go(side, p);
            &&& free && !guarded ==> v == (if d <= 1 {
                240int
            } else if d == 2 {
                140
            } else if d == 3 {
                75
            } else if d == 4 {
                40
            } else if d == 5 {
                20
            } else {
                10
            })
            &&& free && guarded ==> v == (if d <= 1 {
                125int
            } else if d == 2 {
                70
            } else if d == 3 {
                40
            } else if d == 4 {
                20
            } else if d == 5 {
                10
            } else {
                5
            })
            &&& !free && !guarded ==> v == (if d <= 1 {
                85int
            } else if d == 2 {
                50
            } else if d == 3 {
                28
            } else if d == 4 {
                14
            } else if d == 5 {
                7
            } else {
                3
            })
            &&& !free && guarded ==> v == (if d <= 1 {
                40int
            } else if d == 2 {
                20
            } else if d == 3 {
                10
            } else if d == 4 {
                6
            } else if d == 5 {
                3
            } else {
                1
            })
        }),
{
    passed_pawns_cannot_be_stopped(side, p);
    let r = side.rel_rank(p);
    let a = PASSED_FRIENDLY_KING_DIST[r] as int;
    let b = PASSED_ENEMY_KING_DIST[r] as int;
    assert(a * 0 == 0 && b * 0 == 0);
}

/// A passed pawn gains by the nearness of its own king, within seven squares and the more
/// the farther it has come; and loses by that of the enemy's.
pub proof fn kings_escort_passed_pawns(
    side: PawnSide,
    other: PawnSide,
    p: (i64, i64),
    near: Coordinate,
    far: Coordinate,
    d: int,
)
    requires
        !can_be_stopped(side, p),
        0 <= d < 7,
        // One square apart in distance, as kings go.
        abs(near.x - p.0) <= d && abs(near.y - p.1) <= d,
        abs(near.x - p.0) == d || abs(near.y - p.1) == d,
        abs(far.x - p.0) <= d + 1 && abs(far.y - p.1) <= d + 1,
        abs(far.x - p.0) == d + 1 || abs(far.y - p.1) == d + 1,
    ensures
        side.own_king == Some(near) && other == (PawnSide { own_king: Some(far), ..side })
            ==> side.passed_term()(p) - other.passed_term()(p) == (if ranks_to_go(side, p) <= 1 {
            12int
        } else if ranks_to_go(side, p) == 2 {
            8
        } else if ranks_to_go(side, p) == 3 {
            5
        } else if ranks_to_go(side, p) == 4 {
            3
        } else if ranks_to_go(side, p) == 5 {
            2
        } else {
            1
        }),
        side.enemy_king == Some(near) && other == (PawnSide { enemy_king: Some(far), ..side })
            ==> side.passed_term()(p) - other.passed_term()(p) == -(if ranks_to_go(side, p) <= 1 {
            9int
        } else if ranks_to_go(side, p) == 2 {
            6
        } else if ranks_to_go(side, p) == 3 {
            4
        } else if ranks_to_go(side, p) == 4 {
            3
        } else if ranks_to_go(side, p) == 5 {
            2
        } else {
            1
        }),
{
    passed_pawns_cannot_be_stopped(side, p);
    passed_pawns_cannot_be_stopped(other, p);
    let r = side.rel_rank(p);
    let a = PASSED_FRIENDLY_KING_DIST[r] as int;
    let b = PASSED_ENEMY_KING_DIST[r] as int;
    let c = 7 - d;
    assert(PawnSide::king_closeness(Some(near), p) == c);
    assert(PawnSide::king_closeness(Some(far), p) == c - 1);
    assert(a * c - a * (c - 1) == a && b * c - b * (c - 1) == b) by (nonlinear_arith);
    if other == (PawnSide { own_king: Some(far), ..side }) {
        assert(other.passed(p) == side.passed(p));
        assert(other.safe_path(p) == side.safe_path(p));
        assert(other.can_advance(p) == side.can_advance(p));
        assert(other.safe_advance(p) == side.safe_advance(p));
    }
    if other == (PawnSide { enemy_king: Some(far), ..side }) {
        assert(other.passed(p) == side.passed(p));
        assert(other.safe_path(p) == side.safe_path(p));
        assert(other.can_advance(p) == side.can_advance(p));
        assert(other.safe_advance(p) == side.safe_advance(p));
    }
}

/// A pawn without own pawns on the files beside it costs its side 10 in the middlegame and
/// 20 in the endgame; any other costs nothing for that.
pub proof fn isolated_pawns_are_weak(side: PawnSide, p: (i64, i64))
    requires
        is_phase(side.phase),
    ensures
        (exists|i: int| 0 <= i < side.own.len() && abs((#[trigger] side.own[i]).0 - p.0) == 1)
            ==> side.isolated_term()(p) == 0,
        (forall|i: int| 0 <= i < side.own.len() ==> abs((#[trigger] side.own[i]).0 - p.0) != 1)
            ==> -20 <= side.isolated_term()(p) <= -10,
        (forall|i: int| 0 <= i < side.own.len() ==> abs((#[trigger] side.own[i]).0 - p.0) != 1)
            && side.phase == 24 ==> side.isolated_term()(p) == -10,
        (forall|i: int| 0 <= i < side.own.len() ==> abs((#[trigger] side.own[i]).0 - p.0) != 1)
            && side.phase == 0 ==> side.isolated_term()(p) == -20,
{
    weights_taper(10, 20, side.phase);
    if exists|i: int| 0 <= i < side.own.len() && abs((#[trigger] side.own[i]).0 - p.0) == 1 {
        let i = choose|i: int|
            0 <= i < side.own.len() && abs((#[trigger] side.own[i]).0 - p.0) == 1;
        assert(side.own[i].0 == p.0 - 1 || side.own[i].0 == p.0 + 1);
    }
}

/// A pawn that an own pawn protects gains 8 in the middlegame and 15 in the endgame, and
/// half as much again where it is passed.
pub proof fn protected_pawns_are_strong(side: PawnSide, p: (i64, i64), behind: int)
    requires
        is_phase(side.phase),
        behind == (if side.white {
            p.1 - 1
        } else {
            p.1 + 1
        }),
    ensures
        ({
            let protected = has_pawn(side.own, p.0 - 1, behind) || has_pawn(
                side.own,
                p.0 + 1,
                behind,
            );
            let v = side.connected_term()(p);
            &&& !protected ==> v == 0
            &&& protected && can_be_stopped(side, p) ==> 8 <= v <= 15
            &&& protected && !can_be_stopped(side, p) ==> 12 <= v <= 22
            &&& protected && can_be_stopped(side, p) && side.phase == 24 ==> v == 8
            &&& protected && can_be_stopped(side, p) && side.phase == 0 ==> v == 15
            &&& protected && !can_be_stopped(side, p) && side.phase == 24 ==> v == 12
            &&& protected && !can_be_stopped(side, p) && side.phase == 0 ==> v == 22
        }),
{
    passed_pawns_cannot_be_stopped(side, p);
    weights_taper(8, 15, side.phase);
}

/// A pawn that its neighbours have left behind costs its side 8 in the middlegame and 12
/// in the endgame where it cannot go on: the square ahead is taken, or a pawn guards it.
pub proof fn backward_pawns_are_weak(side: PawnSide, p: (i64, i64), ahead: int, guard: int)
    requires
        is_phase(side.phase),
        ahead == (if side.white {
            p.1 + 1
        } else {
            p.1 - 1
        }),
        guard == (if side.white {
            p.1 + 2
        } else {
            p.1 - 2
        }),
    ensures
        ({
            let beside = exists|i: int|
                0 <= i < side.own.len() && abs((#[trigger] side.own[i]).0 - p.0) == 1;
            let left_behind = forall|i: int|
                0 <= i < side.own.len() && abs((#[trigger] side.own[i]).0 - p.0) == 1
                    ==> if side.white {
                    side.own[i].1 > p.1
                } else {
                    side.own[i].1 < p.1
                };
            let stuck = occupied(side.pieces, p.0 as int, ahead) || has_pawn(
                side.enemy,
                p.0 - 1,
                guard,
            ) || has_pawn(side.enemy, p.0 + 1, guard);
            let v = side.backward_term()(p);
            &&& beside && left_behind && stuck ==> -12 <= v <= -8
            &&& beside && left_behind && stuck && side.phase == 24 ==> v == -8
            &&& beside && left_behind && stuck && side.phase == 0 ==> v == -12
            &&& !(beside && left_behind && stuck) ==> v == 0
        }),
{
    weights_taper(8, 12, side.phase);
    if exists|i: int| 0 <= i < side.own.len() && abs((#[trigger] side.own[i]).0 - p.0) == 1 {
        let i = choose|i: int|
            0 <= i < side.own.len() && abs((#[trigger] side.own[i]).0 - p.0) == 1;
        assert(side.own[i].0 == p.0 - 1 || side.own[i].0 == p.0 + 1);
    }
}

/// A candidate gains by rank: 70 next to promotion, and less for each rank before.
pub proof fn candidates_gain_by_rank(side: PawnSide, p: (i64, i64))
    ensures
        ({
            let v = side.candidate_term()(p);
            let d = ranks_to_go(side, p);
            &&& !can_be_stopped(side, p) ==> v == 0
            &&& v == 0 || v == (if d <= 1 {
                70int
            } else if d == 2 {
                40
            } else if d == 3 {
                25
            } else if d == 4 {
                14
            } else if d == 5 {
                7
            } else {
                3
            })
            &&& (exists|i: int|
                0 <= i < side.enemy.len() && (#[trigger] side.enemy[i]).0 == p.0 && (
                if side.white {
                    side.enemy[i].1 > p.1
                } else {
                    side.enemy[i].1 < p.1
                })) ==> v == 0
        }),
{
    passed_pawns_cannot_be_stopped(side, p);
    let f = beyond(p.0 as int, p.1 as int, side.white);
    lemma_counts(side.enemy, f);
    if exists|i: int|
        0 <= i < side.enemy.len() && (#[trigger] side.enemy[i]).0 == p.0 && (if side.white {
            side.enemy[i].1 > p.1
        } else {
            side.enemy[i].1 < p.1
        }) {
        let i = choose|i: int|
            0 <= i < side.enemy.len() && (#[trigger] side.enemy[i]).0 == p.0 && (if side.white {
                side.enemy[i].1 > p.1
            } else {
                side.enemy[i].1 < p.1
            });
        assert(f(side.enemy[i]));
    }
}

/// Each pawn behind another on its file costs 8 in the middlegame and 12 in the endgame.
pub proof fn doubled_pawns_are_weak(side: PawnSide, longer: PawnSide, p: (i64, i64))
    requires
        is_phase(side.phase),
        longer == (PawnSide { own: side.own.push(p), ..side }),
    ensures
        ({
            let cost = side.doubled_score() - longer.doubled_score();
            let taken = exists|i: int| 0 <= i < side.own.len() && (#[trigger] side.own[i]).0 == p.0;
            &&& !taken ==> cost == 0
            &&& taken ==> 8 <= cost <= 12
            &&& taken && side.phase == 24 ==> cost == 8
            &&& taken && side.phase == 0 ==> cost == 12
        }),
        side.own.len() == 0 ==> side.doubled_score() == 0,
{
    assert(longer.own.drop_last() =~= side.own);
    weights_taper(8, 12, side.phase);
    let n = doubled_pawns(side.own) as int;
    let w = tapered(8, 12, side.phase);
    assert((n + 1) * w == n * w + w && 0 * w == 0) by (nonlinear_arith);
    assert(doubled_pawns(longer.own) == n + (if on_file(side.own, p.0 as int) {
        1int
    } else {
        0
    }));
}

} // verus!
