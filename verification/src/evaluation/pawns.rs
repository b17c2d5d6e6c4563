//! Pawn structure: doubled, isolated, backward, connected, candidate and
//! passed pawns. Pawn lists are ordered by file, then by rank.
use crate::arith::{
    abs, cheb, cheb_i64, clamp, clamp_i64, count_of, lemma_count_bound, lemma_count_none,
    lemma_count_step, lemma_sum_bounds, lemma_sum_step, max, max_i64, min, min_i64, sum_of, tdiv,
};
use crate::board::{occupied, Board, Coordinate, Piece, PieceType, PlayerColor};
use crate::evaluation::buffers::{
    lemma_sorted_squares, ordered, sorted_squares, square_le, SquareList,
};
use crate::evaluation::lines::{clear_line_in, is_clear_line_between_fast};
use crate::evaluation::pawn_cache::{
    cached_score, with_score, PawnCache, PawnCacheBucket, PAWN_CACHE_SIZE, PAWN_SCORE_LIMIT,
};
use crate::evaluation::tracing::{traced, EvaluationTracer, TraceRow};
use crate::evaluation::values::{
    in_range, is_phase, of_side, piece_is_white, taper, tapered, MAX_PIECES, PROMO_LIMIT,
};
use crate::game::GameState;
use crate::moves::SpatialIndices;
use vstd::prelude::*;

verus! {

pub const MG_CONNECTED_PAWN_BONUS: i32 = 8;

pub const EG_CONNECTED_PAWN_BONUS: i32 = 15;

pub const MG_DOUBLED_PAWN_PENALTY: i32 = 8;

pub const EG_DOUBLED_PAWN_PENALTY: i32 = 12;

pub const MG_ISOLATED_PAWN_PENALTY: i32 = 10;

pub const EG_ISOLATED_PAWN_PENALTY: i32 = 20;

pub const MG_BACKWARD_PAWN_PENALTY: i32 = 8;

pub const EG_BACKWARD_PAWN_PENALTY: i32 = 12;

pub const MG_PASSED_SAFE_PATH_BONUS: i32 = 40;

pub const EG_PASSED_SAFE_PATH_BONUS: i32 = 80;

/// By relative rank: 0 is far from promotion, 5 is next to it.
pub const CANDIDATE_PASSER_BONUS: [i32; 6] = [3, 7, 14, 25, 40, 70];

/// By whether the pawn can advance, whether the advance is safe, and relative
/// rank.
pub const PASSED_PAWN_ADV_BONUS: [[[i32; 6]; 2]; 2] = [
    [[1, 3, 6, 10, 20, 40], [3, 7, 14, 28, 50, 85]],
    [[5, 10, 20, 40, 70, 125], [10, 20, 40, 75, 140, 240]],
];

pub const PASSED_FRIENDLY_KING_DIST: [i32; 6] = [1, 2, 3, 5, 8, 12];

pub const PASSED_ENEMY_KING_DIST: [i32; 6] = [1, 2, 3, 4, 6, 9];

/// A pawn list that evaluation accepts.
pub open spec fn pawn_list(s: Seq<(i64, i64)>) -> bool {
    &&& ordered(s)
    &&& s.len() <= MAX_PIECES
    &&& forall|i: int|
        0 <= i < s.len() ==> in_range((#[trigger] s[i]).0 as int, s[i].1 as int)
}

/// Whether a list has a pawn on a file.
pub open spec fn on_file(s: Seq<(i64, i64)>, file: int) -> bool {
    exists|i: int| 0 <= i < s.len() && (#[trigger] s[i]).0 == file
}

/// Whether a list has a pawn on a square.
pub open spec fn has_pawn(s: Seq<(i64, i64)>, x: int, y: int) -> bool {
    exists|i: int| 0 <= i < s.len() && (#[trigger] s[i]).0 == x && s[i].1 == y
}

/// The index of the first square that is not before `(x, y)` in the order of
/// squares.
pub fn lower_bound(pawns: &[(i64, i64)], x: i64, y: i64) -> (r: usize)
    requires
        ordered(pawns@),
    ensures
        r <= pawns@.len(),
        forall|i: int|
            0 <= i < r ==> (#[trigger] pawns@[i]).0 < x || (pawns@[i].0 == x && pawns@[i].1 < y),
        forall|i: int|
            r <= i < pawns@.len() ==> (#[trigger] pawns@[i]).0 > x || (pawns@[i].0 == x
                && pawns@[i].1 >= y),
{
    let mut lo: usize = 0;
    let mut hi: usize = pawns.len();
    while lo < hi
        invariant
            lo <= hi <= pawns@.len(),
            ordered(pawns@),
            forall|i: int|
                0 <= i < lo ==> (#[trigger] pawns@[i]).0 < x || (pawns@[i].0 == x && pawns@[i].1
                    < y),
            forall|i: int|
                hi <= i < pawns@.len() ==> (#[trigger] pawns@[i]).0 > x || (pawns@[i].0 == x
                    && pawns@[i].1 >= y),
        decreases hi - lo,
    {
        let mid: usize = lo + (hi - lo) / 2;
        let p = pawns[mid];
        assert(pawns@[mid as int] == p);
        if p.0 < x || (p.0 == x && p.1 < y) {
            lo = mid + 1;
        } else {
            hi = mid;
        }
    }
    lo
}

pub fn has_pawn_on_file(pawns: &[(i64, i64)], file: i64) -> (r: bool)
    requires
        ordered(pawns@),
    ensures
        r == on_file(pawns@, file as int),
{
    let start: usize = lower_bound(pawns, file, i64::MIN);
    if start < pawns.len() {
        let p = pawns[start];
        assert(pawns@[start as int] == p);
        if p.0 == file {
            return true;
        }
        assert forall|i: int| 0 <= i < pawns@.len() implies (#[trigger] pawns@[i]).0 != file by {
            if i > start {
                assert(square_le(pawns@[start as int], pawns@[i]));
            }
        }
        false
    } else {
        false
    }
}

pub fn has_pawn_at(pawns: &[(i64, i64)], x: i64, y: i64) -> (r: bool)
    requires
        ordered(pawns@),
    ensures
        r == has_pawn(pawns@, x as int, y as int),
{
    let start: usize = lower_bound(pawns, x, y);
    if start < pawns.len() {
        let p = pawns[start];
        assert(pawns@[start as int] == p);
        if p.0 == x && p.1 == y {
            return true;
        }
        assert forall|i: int| 0 <= i < pawns@.len() implies !((#[trigger] pawns@[i]).0 == x
            && pawns@[i].1 == y) by {
            if i > start {
                assert(square_le(pawns@[start as int], pawns@[i]));
            }
        }
        false
    } else {
        false
    }
}

/// The pawns of one file that stand above (or, where `above` is false, below)
/// rank `y`.
pub open spec fn beyond(file: int, y: int, above: bool) -> spec_fn((i64, i64)) -> bool {
    |p: (i64, i64)|
        p.0 == file && if above {
            p.1 > y
        } else {
            p.1 < y
        }
}

/// The pawns of one file.
pub open spec fn of_file(file: int) -> spec_fn((i64, i64)) -> bool {
    |p: (i64, i64)| p.0 == file
}

fn count_beyond(pawns: &[(i64, i64)], file: i64, y: i64, above: bool) -> (r: usize)
    requires
        ordered(pawns@),
    ensures
        r == count_of(pawns@, beyond(file as int, y as int, above)),
{
    let ghost f = beyond(file as int, y as int, above);
    let start: usize = lower_bound(pawns, file, i64::MIN);
    let mut k: usize = start;
    let mut n: usize = 0;
    proof {
        lemma_count_none(pawns@, 0, start as int, f);
    }
    while k < pawns.len() && pawns[k].0 == file
        invariant
            start <= k <= pawns@.len(),
            f == beyond(file as int, y as int, above),
            n == count_of(pawns@.take(k as int), f),
            n <= k,
        decreases pawns@.len() - k,
    {
        let py: i64 = pawns[k].1;
        proof {
            lemma_count_step(pawns@, k as int, f);
        }
        if (above && py > y) || (!above && py < y) {
            n += 1;
        }
        k += 1;
    }
    proof {
        assert forall|i: int| k <= i < pawns@.len() implies !(#[trigger] f(pawns@[i])) by {
            if i > k {
                assert(square_le(pawns@[k as int], pawns@[i]));
            }
            assert(pawns@[k as int].0 > file);
        }
        lemma_count_none(pawns@, k as int, pawns@.len() as int, f);
        assert(pawns@.take(pawns@.len() as int) =~= pawns@);
    }
    n
}

fn count_file(pawns: &[(i64, i64)], file: i64) -> (r: usize)
    requires
        ordered(pawns@),
    ensures
        r == count_of(pawns@, of_file(file as int)),
{
    let ghost f = of_file(file as int);
    let start: usize = lower_bound(pawns, file, i64::MIN);
    let mut k: usize = start;
    let mut n: usize = 0;
    proof {
        lemma_count_none(pawns@, 0, start as int, f);
    }
    while k < pawns.len() && pawns[k].0 == file
        invariant
            start <= k <= pawns@.len(),
            f == of_file(file as int),
            n == count_of(pawns@.take(k as int), f),
            n <= k,
        decreases pawns@.len() - k,
    {
        proof {
            lemma_count_step(pawns@, k as int, f);
        }
        n += 1;
        k += 1;
    }
    proof {
        assert forall|i: int| k <= i < pawns@.len() implies !(#[trigger] f(pawns@[i])) by {
            if i > k {
                assert(square_le(pawns@[k as int], pawns@[i]));
            }
            assert(pawns@[k as int].0 > file);
        }
        lemma_count_none(pawns@, k as int, pawns@.len() as int, f);
        assert(pawns@.take(pawns@.len() as int) =~= pawns@);
    }
    n
}

/// The numbers of own and of enemy pawns on a file, as `color` sees them.
pub fn count_pawns_on_file(
    _game: &GameState,
    file: i64,
    color: PlayerColor,
    white_pawns: &[(i64, i64)],
    black_pawns: &[(i64, i64)],
) -> (r: (i32, i32))
    requires
        ordered(white_pawns@),
        ordered(black_pawns@),
        white_pawns@.len() <= i32::MAX,
        black_pawns@.len() <= i32::MAX,
    ensures
        r.0 == count_of(
            if color is White {
                white_pawns@
            } else {
                black_pawns@
            },
            of_file(file as int),
        ),
        r.1 == count_of(
            if color is White {
                black_pawns@
            } else {
                white_pawns@
            },
            of_file(file as int),
        ),
{
    let white: usize = count_file(white_pawns, file);
    let black: usize = count_file(black_pawns, file);
    proof {
        lemma_count_bound(white_pawns@, of_file(file as int));
        lemma_count_bound(black_pawns@, of_file(file as int));
    }
    if color == PlayerColor::White {
        (white as i32, black as i32)
    } else {
        (black as i32, white as i32)
    }
}

/// How many pawns stand on a file that an earlier pawn of the list stands on.
pub open spec fn doubled_pawns(s: Seq<(i64, i64)>) -> nat
    decreases s.len(),
{
    if s.len() == 0 {
        0
    } else {
        doubled_pawns(s.drop_last()) + if on_file(s.drop_last(), s.last().0 as int) {
            1nat
        } else {
            0
        }
    }
}

/// Whether a list has a pawn on `file` with a rank in `lo..=hi`.
pub open spec fn on_file_between(s: Seq<(i64, i64)>, file: int, lo: int, hi: int) -> bool {
    exists|i: int| 0 <= i < s.len() && (#[trigger] s[i]).0 == file && lo <= s[i].1 <= hi
}

/// One side's pawns and what their scores depend on.
pub struct PawnSide {
    pub white: bool,
    pub pieces: Seq<(i64, i64, Piece)>,
    pub indices: SpatialIndices,
    pub own: Seq<(i64, i64)>,
    pub enemy: Seq<(i64, i64)>,
    pub own_king: Option<Coordinate>,
    pub enemy_king: Option<Coordinate>,
    pub promo: i64,
    pub phase: int,
}

impl PawnSide {
    /// The direction in which the side's pawns move.
    pub open spec fn dir(self) -> int {
        if self.white {
            1
        } else {
            -1
        }
    }

    /// No own pawn on either adjacent file.
    pub open spec fn isolated(self, p: (i64, i64)) -> bool {
        !on_file(self.own, p.0 - 1) && !on_file(self.own, p.0 + 1)
    }

    /// Every own pawn on `file` is farther advanced than rank `y`.
    pub open spec fn all_ahead(self, file: int, y: int) -> bool {
        forall|i: int|
            0 <= i < self.own.len() && (#[trigger] self.own[i]).0 == file ==> if self.white {
                self.own[i].1 > y
            } else {
                self.own[i].1 < y
            }
    }

    /// Left behind by its neighbours, with a blocked or attacked stop square.
    pub open spec fn backward(self, p: (i64, i64)) -> bool {
        &&& !self.isolated(p)
        &&& self.all_ahead(p.0 - 1, p.1 as int)
        &&& self.all_ahead(p.0 + 1, p.1 as int)
        &&& (occupied(self.pieces, p.0 as int, p.1 + self.dir()) || has_pawn(
            self.enemy,
            p.0 - 1,
            p.1 + 2 * self.dir(),
        ) || has_pawn(self.enemy, p.0 + 1, p.1 + 2 * self.dir()))
    }

    /// The enemy pawns in front of a pawn on its own file.
    pub open spec fn blockers(self, p: (i64, i64)) -> nat {
        count_of(self.enemy, beyond(p.0 as int, p.1 as int, self.white))
    }

    /// The enemy pawns in front of a pawn on the adjacent files.
    pub open spec fn attackers(self, p: (i64, i64)) -> nat {
        count_of(self.enemy, beyond(p.0 - 1, p.1 as int, self.white)) + count_of(
            self.enemy,
            beyond(p.0 + 1, p.1 as int, self.white),
        )
    }

    /// The own pawns behind a pawn on the adjacent files.
    pub open spec fn defenders(self, p: (i64, i64)) -> nat {
        count_of(self.own, beyond(p.0 - 1, p.1 as int, !self.white)) + count_of(
            self.own,
            beyond(p.0 + 1, p.1 as int, !self.white),
        )
    }

    /// No enemy pawn in front, on its own file or an adjacent one.
    pub open spec fn passed(self, p: (i64, i64)) -> bool {
        self.blockers(p) == 0 && self.attackers(p) == 0
    }

    /// Not passed, but free on its own file and with as many supporters as
    /// there are enemy pawns to pass.
    pub open spec fn candidate(self, p: (i64, i64)) -> bool {
        &&& !self.passed(p)
        &&& self.blockers(p) == 0
        &&& self.defenders(p) >= self.attackers(p)
    }

    /// Protected by an own pawn.
    pub open spec fn connected(self, p: (i64, i64)) -> bool {
        has_pawn(self.own, p.0 - 1, p.1 - self.dir()) || has_pawn(
            self.own,
            p.0 + 1,
            p.1 - self.dir(),
        )
    }

    /// How close a pawn is to promotion, from 0 (far) to 5 (next to it).
    pub open spec fn rel_rank(self, p: (i64, i64)) -> int {
        let dist = if self.white {
            self.promo - p.1
        } else {
            p.1 - self.promo
        };
        clamp(6 - max(dist, 1), 0, 5)
    }

    pub open spec fn can_advance(self, p: (i64, i64)) -> bool {
        !occupied(self.pieces, p.0 as int, p.1 + self.dir())
    }

    /// No enemy pawn attacks the square in front.
    pub open spec fn safe_advance(self, p: (i64, i64)) -> bool {
        !has_pawn(self.enemy, p.0 - 1, p.1 + 2 * self.dir()) && !has_pawn(
            self.enemy,
            p.0 + 1,
            p.1 + 2 * self.dir(),
        )
    }

    /// The way to the promotion rank is free and no enemy pawn guards it.
    pub open spec fn safe_path(self, p: (i64, i64)) -> bool {
        let lo = if self.white {
            p.1 + 2
        } else {
            self.promo - 1
        };
        let hi = if self.white {
            self.promo as int
        } else {
            p.1 - 2
        };
        &&& clear_line_in(
            self.indices,
            Coordinate { x: p.0, y: p.1 },
            Coordinate { x: p.0, y: self.promo },
        )
        &&& !on_file_between(self.enemy, p.0 - 1, lo, hi)
        &&& !on_file_between(self.enemy, p.0 + 1, lo, hi)
    }

    /// A king's distance to a pawn counts up to seven squares.
    pub open spec fn king_closeness(king: Option<Coordinate>, p: (i64, i64)) -> int {
        match king {
            Some(k) => 7 - min(cheb(p.0 as int, p.1 as int, k.x as int, k.y as int), 7),
            None => 0,
        }
    }

    pub open spec fn passed_value(self, p: (i64, i64)) -> int {
        let rank = self.rel_rank(p);
        let base = PASSED_PAWN_ADV_BONUS[if self.can_advance(p) {
            1
        } else {
            0
        }][if self.safe_advance(p) {
            1
        } else {
            0
        }][rank];
        base + PASSED_FRIENDLY_KING_DIST[rank] * Self::king_closeness(self.own_king, p)
            - PASSED_ENEMY_KING_DIST[rank] * Self::king_closeness(self.enemy_king, p) + (
        if self.safe_path(p) {
            tapered(
                MG_PASSED_SAFE_PATH_BONUS as int,
                EG_PASSED_SAFE_PATH_BONUS as int,
                self.phase,
            )
        } else {
            0
        })
    }

    pub open spec fn isolated_term(self) -> spec_fn((i64, i64)) -> int {
        |p: (i64, i64)|
            if self.isolated(p) {
                -tapered(
                    MG_ISOLATED_PAWN_PENALTY as int,
                    EG_ISOLATED_PAWN_PENALTY as int,
                    self.phase,
                )
            } else {
                0
            }
    }

    pub open spec fn backward_term(self) -> spec_fn((i64, i64)) -> int {
        |p: (i64, i64)|
            if self.backward(p) {
                -tapered(
                    MG_BACKWARD_PAWN_PENALTY as int,
                    EG_BACKWARD_PAWN_PENALTY as int,
                    self.phase,
                )
            } else {
                0
            }
    }

    pub open spec fn passed_term(self) -> spec_fn((i64, i64)) -> int {
        |p: (i64, i64)|
            if self.passed(p) {
                self.passed_value(p)
            } else {
                0
            }
    }

    pub open spec fn candidate_term(self) -> spec_fn((i64, i64)) -> int {
        |p: (i64, i64)|
            if self.candidate(p) {
                CANDIDATE_PASSER_BONUS[self.rel_rank(p)] as int
            } else {
                0
            }
    }

    pub open spec fn connected_term(self) -> spec_fn((i64, i64)) -> int {
        |p: (i64, i64)|
            if self.connected(p) {
                let bonus = tapered(
                    MG_CONNECTED_PAWN_BONUS as int,
                    EG_CONNECTED_PAWN_BONUS as int,
                    self.phase,
                );
                if self.passed(p) {
                    tdiv(bonus * 3, 2)
                } else {
                    bonus
                }
            } else {
                0
            }
    }

    pub open spec fn doubled_score(self) -> int {
        -(doubled_pawns(self.own) * tapered(
            MG_DOUBLED_PAWN_PENALTY as int,
            EG_DOUBLED_PAWN_PENALTY as int,
            self.phase,
        ))
    }

    /// The side's pawn structure score.
    pub open spec fn score(self) -> int {
        self.doubled_score() + sum_of(self.own, self.passed_term()) + sum_of(
            self.own,
            self.candidate_term(),
        ) + sum_of(self.own, self.connected_term()) + sum_of(self.own, self.isolated_term())
            + sum_of(self.own, self.backward_term())
    }

    /// The side can be evaluated: its squares and kings are in range.
    pub open spec fn wf(self) -> bool {
        &&& pawn_list(self.own)
        &&& pawn_list(self.enemy)
        &&& self.indices.wf()
        &&& is_phase(self.phase)
        &&& -PROMO_LIMIT <= self.promo <= PROMO_LIMIT
        &&& self.own_king matches Some(k) ==> in_range(k.x as int, k.y as int)
        &&& self.enemy_king matches Some(k) ==> in_range(k.x as int, k.y as int)
    }
}

/// The terms of one pawn, or their sums over a list of pawns.
pub struct PawnTerms {
    pub passed: i32,
    pub candidate: i32,
    pub connected: i32,
    pub isolated: i32,
    pub backward: i32,
}

pub fn has_pawn_on_file_between(pawns: &[(i64, i64)], file: i64, lo: i64, hi: i64) -> (r: bool)
    requires
        ordered(pawns@),
    ensures
        r == on_file_between(pawns@, file as int, lo as int, hi as int),
{
    let start: usize = lower_bound(pawns, file, lo);
    if start < pawns.len() {
        let p = pawns[start];
        assert(pawns@[start as int] == p);
        if p.0 == file && p.1 <= hi {
            return true;
        }
        assert forall|i: int| 0 <= i < pawns@.len() implies !((#[trigger] pawns@[i]).0 == file && lo
            <= pawns@[i].1 <= hi) by {
            if i > start {
                assert(square_le(pawns@[start as int], pawns@[i]));
            }
        }
        false
    } else {
        false
    }
}

/// Whether every pawn on `file` is farther advanced than rank `y`.
fn file_is_ahead(pawns: &[(i64, i64)], file: i64, y: i64, white: bool) -> (r: bool)
    requires
        ordered(pawns@),
    ensures
        r == forall|i: int|
            0 <= i < pawns@.len() && (#[trigger] pawns@[i]).0 == file ==> if white {
                pawns@[i].1 > y
            } else {
                pawns@[i].1 < y
            },
{
    if white {
        !has_pawn_on_file_between(pawns, file, i64::MIN, y)
    } else {
        !has_pawn_on_file_between(pawns, file, y, i64::MAX)
    }
}

fn count_doubled(pawns: &[(i64, i64)]) -> (r: usize)
    requires
        ordered(pawns@),
    ensures
        r == doubled_pawns(pawns@),
        r <= pawns@.len(),
{
    let mut n: usize = 0;
    let mut i: usize = 0;
    while i < pawns.len()
        invariant
            i <= pawns@.len(),
            ordered(pawns@),
            n == doubled_pawns(pawns@.take(i as int)),
            n <= i,
        decreases pawns@.len() - i,
    {
        let ghost t = pawns@.take(i as int);
        assert(pawns@.take(i + 1).drop_last() =~= t);
        assert(pawns@.take(i + 1).last() == pawns@[i as int]);
        if i > 0 && pawns[i - 1].0 == pawns[i].0 {
            assert(t[i - 1].0 == pawns@[i as int].0);
            n += 1;
        } else {
            assert forall|k: int| 0 <= k < t.len() implies (#[trigger] t[k]).0 != pawns@[i as int].0
                by {
                assert(t[k] == pawns@[k]);
                assert(square_le(pawns@[i - 1], pawns@[i as int]));
                if k < i - 1 {
                    assert(square_le(pawns@[k], pawns@[i - 1]));
                }
            }
        }
        i += 1;
    }
    assert(pawns@.take(i as int) =~= pawns@);
    n
}

fn king_closeness(king: &Option<Coordinate>, x: i64, y: i64) -> (r: i32)
    requires
        in_range(x as int, y as int),
        king matches Some(k) ==> in_range(k.x as int, k.y as int),
    ensures
        r == PawnSide::king_closeness(*king, (x, y)),
        0 <= r <= 7,
{
    match king {
        Some(k) => (7 - min_i64(cheb_i64(x, y, k.x, k.y), 7)) as i32,
        None => 0,
    }
}

/// The value of a passed pawn on `(x, y)`.
fn passed_pawn_value(
    board: &Board,
    indices: &SpatialIndices,
    white: bool,
    x: i64,
    y: i64,
    enemy: &[(i64, i64)],
    own_king: &Option<Coordinate>,
    enemy_king: &Option<Coordinate>,
    promo: i64,
    phase: i32,
    Ghost(side): Ghost<PawnSide>,
) -> (r: i32)
    requires
        side.wf(),
        side.white == white,
        side.pieces == board@,
        side.indices == *indices,
        side.enemy == enemy@,
        side.own_king == *own_king,
        side.enemy_king == *enemy_king,
        side.promo == promo,
        side.phase == phase,
        in_range(x as int, y as int),
    ensures
        r == side.passed_value((x, y)),
        -63 <= r <= 404,
{
    let dist: i64 = if white {
        promo - y
    } else {
        y - promo
    };
    let rank: usize = clamp_i64(6 - max_i64(dist, 1), 0, 5) as usize;
    let dir: i64 = if white {
        1
    } else {
        -1
    };
    let can_advance = !board.is_occupied(x, y + dir);
    let safe_advance = !has_pawn_at(enemy, x - 1, y + 2 * dir) && !has_pawn_at(
        enemy,
        x + 1,
        y + 2 * dir,
    );
    let (lo, hi) = if white {
        (y + 2, promo)
    } else {
        (promo - 1, y - 2)
    };
    let safe_path = is_clear_line_between_fast(
        indices,
        &Coordinate { x, y },
        &Coordinate { x, y: promo },
    ) && !has_pawn_on_file_between(enemy, x - 1, lo, hi) && !has_pawn_on_file_between(
        enemy,
        x + 1,
        lo,
        hi,
    );
    let path_bonus: i32 = if safe_path {
        taper(MG_PASSED_SAFE_PATH_BONUS, EG_PASSED_SAFE_PATH_BONUS, phase)
    } else {
        0
    };
    let friend: i32 = king_closeness(own_king, x, y);
    let foe: i32 = king_closeness(enemy_king, x, y);
    let base: i32 = PASSED_PAWN_ADV_BONUS[if can_advance {
        1
    } else {
        0
    }][if safe_advance {
        1
    } else {
        0
    }][rank];
    let friend_weight: i32 = PASSED_FRIENDLY_KING_DIST[rank];
    let foe_weight: i32 = PASSED_ENEMY_KING_DIST[rank];
    assert(1 <= friend_weight <= 12);
    assert(1 <= foe_weight <= 9);
    assert(1 <= base <= 240);
    assert(0 <= friend_weight * friend <= 84) by (nonlinear_arith)
        requires
            1 <= friend_weight <= 12,
            0 <= friend <= 7,
    ;
    assert(0 <= foe_weight * foe <= 63) by (nonlinear_arith)
        requires
            1 <= foe_weight <= 9,
            0 <= foe <= 7,
    ;
    base + friend_weight * friend - foe_weight * foe + path_bonus
}

/// The terms of the pawn on `(x, y)`.
fn evaluate_pawn(
    board: &Board,
    indices: &SpatialIndices,
    white: bool,
    x: i64,
    y: i64,
    own: &[(i64, i64)],
    enemy: &[(i64, i64)],
    own_king: &Option<Coordinate>,
    enemy_king: &Option<Coordinate>,
    promo: i64,
    phase: i32,
    Ghost(side): Ghost<PawnSide>,
) -> (r: PawnTerms)
    requires
        side.wf(),
        side.white == white,
        side.pieces == board@,
        side.indices == *indices,
        side.own == own@,
        side.enemy == enemy@,
        side.own_king == *own_king,
        side.enemy_king == *enemy_king,
        side.promo == promo,
        side.phase == phase,
        in_range(x as int, y as int),
    ensures
        r.passed == side.passed_term()((x, y)),
        r.candidate == side.candidate_term()((x, y)),
        r.connected == side.connected_term()((x, y)),
        r.isolated == side.isolated_term()((x, y)),
        r.backward == side.backward_term()((x, y)),
        -63 <= r.passed <= 404,
        0 <= r.candidate <= 70,
        0 <= r.connected <= 22,
        -20 <= r.isolated <= 0,
        -12 <= r.backward <= 0,
{
    let ghost p = (x, y);
    let dir: i64 = if white {
        1
    } else {
        -1
    };
    let mut isolated: i32 = 0;
    let mut backward: i32 = 0;
    let lonely = !has_pawn_on_file(own, x - 1) && !has_pawn_on_file(own, x + 1);
    assert(lonely == side.isolated(p));
    if lonely {
        isolated = -taper(MG_ISOLATED_PAWN_PENALTY, EG_ISOLATED_PAWN_PENALTY, phase);
    } else if file_is_ahead(own, x - 1, y, white) && file_is_ahead(own, x + 1, y, white) {
        assert(side.all_ahead(p.0 - 1, p.1 as int) && side.all_ahead(p.0 + 1, p.1 as int));
        let stop_sq_blocked = board.is_occupied(x, y + dir);
        let stop_sq_attacked = has_pawn_at(enemy, x - 1, y + 2 * dir) || has_pawn_at(
            enemy,
            x + 1,
            y + 2 * dir,
        );
        if stop_sq_blocked || stop_sq_attacked {
            backward = -taper(MG_BACKWARD_PAWN_PENALTY, EG_BACKWARD_PAWN_PENALTY, phase);
        }
    } else {
        assert(!side.all_ahead(p.0 - 1, p.1 as int) || !side.all_ahead(p.0 + 1, p.1 as int));
    }
    let blockers: usize = count_beyond(enemy, x, y, white);
    let left_attackers: usize = count_beyond(enemy, x - 1, y, white);
    let right_attackers: usize = count_beyond(enemy, x + 1, y, white);
    let left_defenders: usize = count_beyond(own, x - 1, y, !white);
    let right_defenders: usize = count_beyond(own, x + 1, y, !white);
    proof {
        lemma_count_bound(side.enemy, beyond(x - 1, y as int, white));
        lemma_count_bound(side.enemy, beyond(x + 1, y as int, white));
        lemma_count_bound(side.own, beyond(x - 1, y as int, !white));
        lemma_count_bound(side.own, beyond(x + 1, y as int, !white));
    }
    let attackers: usize = left_attackers + right_attackers;
    let defenders: usize = left_defenders + right_defenders;
    let is_passed = blockers == 0 && attackers == 0;
    assert(is_passed == side.passed(p));
    let mut passed: i32 = 0;
    let mut candidate: i32 = 0;
    if is_passed {
        passed =
        passed_pawn_value(
            board,
            indices,
            white,
            x,
            y,
            enemy,
            own_king,
            enemy_king,
            promo,
            phase,
            Ghost(side),
        );
    } else if blockers == 0 && defenders >= attackers {
        let dist: i64 = if white {
            promo - y
        } else {
            y - promo
        };
        let rank: usize = clamp_i64(6 - max_i64(dist, 1), 0, 5) as usize;
        candidate = CANDIDATE_PASSER_BONUS[rank];
    }
    let mut connected: i32 = 0;
    if has_pawn_at(own, x - 1, y - dir) || has_pawn_at(own, x + 1, y - dir) {
        let bonus: i32 = taper(MG_CONNECTED_PAWN_BONUS, EG_CONNECTED_PAWN_BONUS, phase);
        connected = if is_passed {
            (bonus * 3) / 2
        } else {
            bonus
        };
    }
    PawnTerms { passed, candidate, connected, isolated, backward }
}

/// The sums of the terms of all of a side's pawns.
fn evaluate_side(
    board: &Board,
    indices: &SpatialIndices,
    white: bool,
    own: &[(i64, i64)],
    enemy: &[(i64, i64)],
    own_king: &Option<Coordinate>,
    enemy_king: &Option<Coordinate>,
    promo: i64,
    phase: i32,
    Ghost(side): Ghost<PawnSide>,
) -> (r: PawnTerms)
    requires
        side.wf(),
        side.white == white,
        side.pieces == board@,
        side.indices == *indices,
        side.own == own@,
        side.enemy == enemy@,
        side.own_king == *own_king,
        side.enemy_king == *enemy_king,
        side.promo == promo,
        side.phase == phase,
    ensures
        r.passed == sum_of(side.own, side.passed_term()),
        r.candidate == sum_of(side.own, side.candidate_term()),
        r.connected == sum_of(side.own, side.connected_term()),
        r.isolated == sum_of(side.own, side.isolated_term()),
        r.backward == sum_of(side.own, side.backward_term()),
        -63 * side.own.len() <= r.passed <= 404 * side.own.len(),
        0 <= r.candidate <= 70 * side.own.len(),
        0 <= r.connected <= 22 * side.own.len(),
        -20 * side.own.len() <= r.isolated <= 0,
        -12 * side.own.len() <= r.backward <= 0,
{
    let mut r = PawnTerms { passed: 0, candidate: 0, connected: 0, isolated: 0, backward: 0 };
    let mut i: usize = 0;
    while i < own.len()
        invariant
            i <= own@.len(),
            side.wf(),
            side.white == white,
            side.pieces == board@,
            side.indices == *indices,
            side.own == own@,
            side.enemy == enemy@,
            side.own_king == *own_king,
            side.enemy_king == *enemy_king,
            side.promo == promo,
            side.phase == phase,
            r.passed == sum_of(own@.take(i as int), side.passed_term()),
            r.candidate == sum_of(own@.take(i as int), side.candidate_term()),
            r.connected == sum_of(own@.take(i as int), side.connected_term()),
            r.isolated == sum_of(own@.take(i as int), side.isolated_term()),
            r.backward == sum_of(own@.take(i as int), side.backward_term()),
            -63 * i <= r.passed <= 404 * i,
            0 <= r.candidate <= 70 * i,
            0 <= r.connected <= 22 * i,
            -20 * i <= r.isolated <= 0,
            -12 * i <= r.backward <= 0,
        decreases own@.len() - i,
    {
        let (x, y) = own[i];
        assert(own@[i as int] == (x, y));
        let t = evaluate_pawn(
            board,
            indices,
            white,
            x,
            y,
            own,
            enemy,
            own_king,
            enemy_king,
            promo,
            phase,
            Ghost(side),
        );
        proof {
            lemma_sum_step(own@, i as int, side.passed_term());
            lemma_sum_step(own@, i as int, side.candidate_term());
            lemma_sum_step(own@, i as int, side.connected_term());
            lemma_sum_step(own@, i as int, side.isolated_term());
            lemma_sum_step(own@, i as int, side.backward_term());
        }
        r =
        PawnTerms {
            passed: r.passed + t.passed,
            candidate: r.candidate + t.candidate,
            connected: r.connected + t.connected,
            isolated: r.isolated + t.isolated,
            backward: r.backward + t.backward,
        };
        i += 1;
    }
    assert(own@.take(i as int) =~= own@);
    r
}

/// White's pawns in a game.
pub open spec fn white_side(
    game: GameState,
    phase: int,
    white_king: Option<Coordinate>,
    black_king: Option<Coordinate>,
    white_pawns: Seq<(i64, i64)>,
    black_pawns: Seq<(i64, i64)>,
) -> PawnSide {
    PawnSide {
        white: true,
        pieces: game.board@,
        indices: game.spatial_indices,
        own: white_pawns,
        enemy: black_pawns,
        own_king: white_king,
        enemy_king: black_king,
        promo: game.white_promo_rank,
        phase,
    }
}

/// Black's pawns in a game.
pub open spec fn black_side(
    game: GameState,
    phase: int,
    white_king: Option<Coordinate>,
    black_king: Option<Coordinate>,
    white_pawns: Seq<(i64, i64)>,
    black_pawns: Seq<(i64, i64)>,
) -> PawnSide {
    PawnSide {
        white: false,
        pieces: game.board@,
        indices: game.spatial_indices,
        own: black_pawns,
        enemy: white_pawns,
        own_king: black_king,
        enemy_king: white_king,
        promo: game.black_promo_rank,
        phase,
    }
}

/// White's pawn structure score minus Black's.
pub open spec fn pawn_structure(w: PawnSide, b: PawnSide) -> int {
    w.score() - b.score()
}

/// The terms of a pawn structure evaluation, as they are recorded.
pub open spec fn pawn_rows(w: PawnSide, b: PawnSide) -> Seq<TraceRow> {
    seq![
        ("Pawn: Doubled"@, abs(w.doubled_score()), abs(b.doubled_score())),
        ("Pawn: Passed"@, sum_of(w.own, w.passed_term()), sum_of(b.own, b.passed_term())),
        ("Pawn: Candidate"@, sum_of(w.own, w.candidate_term()), sum_of(b.own, b.candidate_term())),
        ("Pawn: Connected"@, sum_of(w.own, w.connected_term()), sum_of(b.own, b.connected_term())),
        (
            "Pawn: Isolated"@,
            abs(sum_of(w.own, w.isolated_term())),
            abs(sum_of(b.own, b.isolated_term())),
        ),
        (
            "Pawn: Backward"@,
            abs(sum_of(w.own, w.backward_term())),
            abs(sum_of(b.own, b.backward_term())),
        ),
    ]
}

/// Computes the pawn structure score of both sides and records its terms.
pub fn compute_pawn_structure_traced<T: EvaluationTracer>(
    game: &GameState,
    phase: i32,
    white_king: &Option<Coordinate>,
    black_king: &Option<Coordinate>,
    tracer: &mut T,
    white_pawns: &[(i64, i64)],
    black_pawns: &[(i64, i64)],
) -> (r: i32)
    requires
        white_side(
            *game,
            phase as int,
            *white_king,
            *black_king,
            white_pawns@,
            black_pawns@,
        ).wf(),
        black_side(
            *game,
            phase as int,
            *white_king,
            *black_king,
            white_pawns@,
            black_pawns@,
        ).wf(),
    ensures
        ({
            let w = white_side(
                *game,
                phase as int,
                *white_king,
                *black_king,
                white_pawns@,
                black_pawns@,
            );
            let b = black_side(
                *game,
                phase as int,
                *white_king,
                *black_king,
                white_pawns@,
                black_pawns@,
            );
            &&& r == pawn_structure(w, b)
            &&& final(tracer).recorded() == traced(
                old(tracer).recorded(),
                old(tracer).active(),
                pawn_rows(w, b),
            )
        }),
        final(tracer).active() == old(tracer).active(),
        -PAWN_SCORE_LIMIT <= r <= PAWN_SCORE_LIMIT,
{
    let ghost w = white_side(
        *game,
        phase as int,
        *white_king,
        *black_king,
        white_pawns@,
        black_pawns@,
    );
    let ghost b = black_side(
        *game,
        phase as int,
        *white_king,
        *black_king,
        white_pawns@,
        black_pawns@,
    );
    let penalty: i32 = taper(MG_DOUBLED_PAWN_PENALTY, EG_DOUBLED_PAWN_PENALTY, phase);
    assert(0 <= penalty <= 12);
    let w_count: i32 = count_doubled(white_pawns) as i32;
    let b_count: i32 = count_doubled(black_pawns) as i32;
    assert(0 <= w_count * penalty <= 12 * w_count) by (nonlinear_arith)
        requires
            0 <= penalty <= 12,
            0 <= w_count,
    ;
    assert(0 <= b_count * penalty <= 12 * b_count) by (nonlinear_arith)
        requires
            0 <= penalty <= 12,
            0 <= b_count,
    ;
    let w_doubled: i32 = -(w_count * penalty);
    let b_doubled: i32 = -(b_count * penalty);
    assert(w_doubled == w.doubled_score());
    assert(b_doubled == b.doubled_score());
    let wt = evaluate_side(
        &game.board,
        &game.spatial_indices,
        true,
        white_pawns,
        black_pawns,
        white_king,
        black_king,
        game.white_promo_rank,
        phase,
        Ghost(w),
    );
    let bt = evaluate_side(
        &game.board,
        &game.spatial_indices,
        false,
        black_pawns,
        white_pawns,
        black_king,
        white_king,
        game.black_promo_rank,
        phase,
        Ghost(b),
    );
    tracer.record("Pawn: Doubled", -w_doubled, -b_doubled);
    tracer.record("Pawn: Passed", wt.passed, bt.passed);
    tracer.record("Pawn: Candidate", wt.candidate, bt.candidate);
    tracer.record("Pawn: Connected", wt.connected, bt.connected);
    tracer.record("Pawn: Isolated", -wt.isolated, -bt.isolated);
    tracer.record("Pawn: Backward", -wt.backward, -bt.backward);
    assert(tracer.recorded() =~= traced(
        old(tracer).recorded(),
        old(tracer).active(),
        pawn_rows(w, b),
    ));
    (w_doubled + wt.passed + wt.candidate + wt.connected + wt.isolated + wt.backward) - (b_doubled
        + bt.passed + bt.candidate + bt.connected + bt.isolated + bt.backward)
}

/// The pawn structure score that is returned: where terms are traced or the
/// cache holds none, the computed one; else the cached one.
pub open spec fn pawn_structure_result(
    cache: Seq<PawnCacheBucket>,
    active: bool,
    hash: u64,
    w: PawnSide,
    b: PawnSide,
) -> int {
    if active {
        pawn_structure(w, b)
    } else {
        match cached_score(cache, hash) {
            Some(score) => score as int,
            None => pawn_structure(w, b),
        }
    }
}

/// The cache afterwards: a score that was computed untraced is stored.
pub open spec fn pawn_structure_cache(
    cache: Seq<PawnCacheBucket>,
    active: bool,
    hash: u64,
    w: PawnSide,
    b: PawnSide,
) -> Seq<PawnCacheBucket> {
    if active || cached_score(cache, hash) is Some {
        cache
    } else {
        with_score(cache, hash, pawn_structure(w, b) as i32)
    }
}

/// White's pawn structure score minus Black's, by way of the cache under the
/// game's pawn hash. An active tracer bypasses the cache, so that it gets the
/// full breakdown.
pub fn evaluate_pawn_structure_traced<T: EvaluationTracer>(
    game: &GameState,
    phase: i32,
    white_king: &Option<Coordinate>,
    black_king: &Option<Coordinate>,
    tracer: &mut T,
    white_pawns: &[(i64, i64)],
    black_pawns: &[(i64, i64)],
    _white_rq: &[(i64, i64)],
    _black_rq: &[(i64, i64)],
    cache: &mut PawnCache,
) -> (r: i32)
    requires
        old(cache).wf(),
        white_side(
            *game,
            phase as int,
            *white_king,
            *black_king,
            white_pawns@,
            black_pawns@,
        ).wf(),
        black_side(
            *game,
            phase as int,
            *white_king,
            *black_king,
            white_pawns@,
            black_pawns@,
        ).wf(),
    ensures
        ({
            let w = white_side(
                *game,
                phase as int,
                *white_king,
                *black_king,
                white_pawns@,
                black_pawns@,
            );
            let b = black_side(
                *game,
                phase as int,
                *white_king,
                *black_king,
                white_pawns@,
                black_pawns@,
            );
            &&& r == pawn_structure_result(
                old(cache)@,
                old(tracer).active(),
                game.pawn_hash,
                w,
                b,
            )
            &&& final(cache)@ == pawn_structure_cache(
                old(cache)@,
                old(tracer).active(),
                game.pawn_hash,
                w,
                b,
            )
            &&& final(tracer).recorded() == traced(
                old(tracer).recorded(),
                old(tracer).active(),
                pawn_rows(w, b),
            )
        }),
        final(tracer).active() == old(tracer).active(),
        final(cache).wf(),
        -PAWN_SCORE_LIMIT <= r <= PAWN_SCORE_LIMIT,
{
    if tracer.is_active() {
        return compute_pawn_structure_traced(
            game,
            phase,
            white_king,
            black_king,
            tracer,
            white_pawns,
            black_pawns,
        );
    }
    if let Some(score) = cache.probe(game.pawn_hash) {
        return score;
    }
    let score: i32 = compute_pawn_structure_traced(
        game,
        phase,
        white_king,
        black_king,
        tracer,
        white_pawns,
        black_pawns,
    );
    cache.store(game.pawn_hash, score);
    score
}

/// Whether a piece is a pawn of the given side that can still promote.
pub open spec fn live_pawn(p: (i64, i64, Piece), white: bool, promo: int) -> bool {
    p.2.piece_type is Pawn && of_side(p.2, white) && if white {
        p.1 < promo
    } else {
        p.1 > promo
    }
}

/// The squares of a side's pawns that can still promote, in the order of the
/// pieces.
pub open spec fn live_pawns(s: Seq<(i64, i64, Piece)>, white: bool, promo: int) -> Seq<(i64, i64)>
    decreases s.len(),
{
    if s.len() == 0 {
        Seq::empty()
    } else if live_pawn(s.last(), white, promo) {
        live_pawns(s.drop_last(), white, promo).push((s.last().0, s.last().1))
    } else {
        live_pawns(s.drop_last(), white, promo)
    }
}

/// The pieces are few enough, and all of them on squares in range.
pub open spec fn pieces_in_range(s: Seq<(i64, i64, Piece)>) -> bool {
    &&& s.len() <= MAX_PIECES
    &&& forall|i: int|
        0 <= i < s.len() ==> in_range((#[trigger] s[i]).0 as int, s[i].1 as int)
}

/// A side's pawns that can still promote, in order.
pub open spec fn sorted_pawns(s: Seq<(i64, i64, Piece)>, white: bool, promo: int) -> Seq<
    (i64, i64),
> {
    sorted_squares(live_pawns(s, white, promo))
}

pub proof fn lemma_live_pawns(s: Seq<(i64, i64, Piece)>, white: bool, promo: int)
    requires
        pieces_in_range(s),
    ensures
        live_pawns(s, white, promo).len() <= s.len(),
        forall|i: int|
            0 <= i < live_pawns(s, white, promo).len() ==> in_range(
                (#[trigger] live_pawns(s, white, promo)[i]).0 as int,
                live_pawns(s, white, promo)[i].1 as int,
            ),
    decreases s.len(),
{
    if s.len() > 0 {
        let t = s.drop_last();
        assert forall|i: int| 0 <= i < t.len() implies in_range(
            (#[trigger] t[i]).0 as int,
            t[i].1 as int,
        ) by {
            assert(t[i] == s[i]);
        }
        lemma_live_pawns(t, white, promo);
        assert(s[s.len() - 1] == s.last());
    }
}

/// A side's sorted pawns make a pawn list.
pub proof fn lemma_sorted_pawns(s: Seq<(i64, i64, Piece)>, white: bool, promo: int)
    requires
        pieces_in_range(s),
    ensures
        pawn_list(sorted_pawns(s, white, promo)),
        sorted_pawns(s, white, promo).len() <= s.len(),
{
    let u = live_pawns(s, white, promo);
    let t = sorted_pawns(s, white, promo);
    lemma_live_pawns(s, white, promo);
    lemma_sorted_squares(u);
    assert forall|i: int| 0 <= i < t.len() implies in_range(
        (#[trigger] t[i]).0 as int,
        t[i].1 as int,
    ) by {
        assert(t.contains(t[i]));
        assert(u.contains(t[i]));
        let k = choose|k: int| 0 <= k < u.len() && u[k] == t[i];
        assert(in_range(u[k].0 as int, u[k].1 as int));
    }
}

/// Collects a side's pawns that can still promote, in order.
pub fn collect_pawns(pieces: &[(i64, i64, Piece)], white: bool, promo: i64) -> (r: SquareList)
    requires
        pieces_in_range(pieces@),
    ensures
        r@ == sorted_pawns(pieces@, white, promo as int),
        pawn_list(r@),
        r@.len() <= pieces@.len(),
{
    let mut r = SquareList::new();
    let mut i: usize = 0;
    while i < pieces.len()
        invariant
            i <= pieces@.len(),
            pieces@.len() <= MAX_PIECES,
            r@ == live_pawns(pieces@.take(i as int), white, promo as int),
            r@.len() <= i,
        decreases pieces@.len() - i,
    {
        let (x, y, piece) = pieces[i];
        assert(pieces@[i as int] == (x, y, piece));
        assert(pieces@.take(i + 1).drop_last() =~= pieces@.take(i as int));
        assert(pieces@.take(i + 1).last() == pieces@[i as int]);
        if piece.piece_type == PieceType::Pawn && piece_is_white(piece) == white {
            if (white && y < promo) || (!white && y > promo) {
                r.push((x, y));
            }
        }
        i += 1;
    }
    assert(pieces@.take(i as int) =~= pieces@);
    proof {
        lemma_sorted_pawns(pieces@, white, promo as int);
    }
    r.sort();
    r
}

proof fn lemma_side_score_bounds(side: PawnSide)
    requires
        side.wf(),
    ensures
        -107 * side.own.len() <= side.score() <= 496 * side.own.len(),
{
    let s = side.own;
    assert forall|i: int| 0 <= i < s.len() implies -63 <= #[trigger] side.passed_term()(s[i])
        <= 404 by {
        let p = s[i];
        let rank = side.rel_rank(p);
        let friend = PASSED_FRIENDLY_KING_DIST[rank];
        let foe = PASSED_ENEMY_KING_DIST[rank];
        let near = PawnSide::king_closeness(side.own_king, p);
        let far = PawnSide::king_closeness(side.enemy_king, p);
        assert(1 <= friend <= 12);
        assert(1 <= foe <= 9);
        assert(0 <= friend * near <= 84) by (nonlinear_arith)
            requires
                1 <= friend <= 12,
                0 <= near <= 7,
        ;
        assert(0 <= foe * far <= 63) by (nonlinear_arith)
            requires
                1 <= foe <= 9,
                0 <= far <= 7,
        ;
    }
    lemma_sum_bounds(s, side.passed_term(), -63, 404);
    assert forall|i: int| 0 <= i < s.len() implies 0 <= #[trigger] side.candidate_term()(s[i])
        <= 70 by {}
    lemma_sum_bounds(s, side.candidate_term(), 0, 70);
    assert forall|i: int| 0 <= i < s.len() implies 0 <= #[trigger] side.connected_term()(s[i])
        <= 22 by {}
    lemma_sum_bounds(s, side.connected_term(), 0, 22);
    assert forall|i: int| 0 <= i < s.len() implies -20 <= #[trigger] side.isolated_term()(s[i])
        <= 0 by {}
    lemma_sum_bounds(s, side.isolated_term(), -20, 0);
    assert forall|i: int| 0 <= i < s.len() implies -12 <= #[trigger] side.backward_term()(s[i])
        <= 0 by {}
    lemma_sum_bounds(s, side.backward_term(), -12, 0);
    lemma_doubled_bound(s);
    let n = doubled_pawns(s);
    let penalty = tapered(
        MG_DOUBLED_PAWN_PENALTY as int,
        EG_DOUBLED_PAWN_PENALTY as int,
        side.phase,
    );
    assert(0 <= n * penalty <= 12 * s.len()) by (nonlinear_arith)
        requires
            0 <= n <= s.len(),
            0 <= penalty <= 12,
    ;
}

proof fn lemma_doubled_bound(s: Seq<(i64, i64)>)
    ensures
        doubled_pawns(s) <= s.len(),
    decreases s.len(),
{
    if s.len() > 0 {
        lemma_doubled_bound(s.drop_last());
    }
}

/// Pawn structure scores stay within [`PAWN_SCORE_LIMIT`].
pub proof fn lemma_pawn_structure_bounds(w: PawnSide, b: PawnSide)
    requires
        w.wf(),
        b.wf(),
    ensures
        -PAWN_SCORE_LIMIT <= pawn_structure(w, b) <= PAWN_SCORE_LIMIT,
{
    lemma_side_score_bounds(w);
    lemma_side_score_bounds(b);
}

/// Evaluating a pawn structure again, with the cache that the first evaluation
/// left, gives the first score.
pub proof fn repeated_pawn_structure_agrees(
    cache: Seq<PawnCacheBucket>,
    hash: u64,
    w: PawnSide,
    b: PawnSide,
)
    requires
        cache.len() == PAWN_CACHE_SIZE,
        w.wf(),
        b.wf(),
    ensures
        pawn_structure_result(pawn_structure_cache(cache, false, hash, w, b), false, hash, w, b)
            == pawn_structure_result(cache, false, hash, w, b),
{
    lemma_pawn_structure_bounds(w, b);
}

} // verus!
