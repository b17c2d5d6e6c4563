//! What a search learns from a cutoff or a failure: killers, countermoves and
//! histories.
use crate::arith::{abs, abs_i32, clamp, clamp_i64, tdiv};
use crate::board::PieceType;
use crate::moves::Move;
use crate::search::decisions::{bonus_for, history_bonus, DEPTH_LIMIT};
use crate::search::ordering::{coord_slot, hash_coord_32, hash_move_dest, square_slot};
use crate::search::params::{DEFAULT_PAWN_HISTORY_BONUS_SCALE, DEFAULT_PAWN_HISTORY_MALUS_SCALE};
use crate::search::searcher::{
    gravity, gravity_update, pawn_history_index, pawn_slot, same_but, Searcher,
    CAPTURE_HISTORY_LIMIT, PAWN_HISTORY_ENTRIES,
};
use crate::search::{LOW_PLY_HISTORY_ENTRIES, LOW_PLY_HISTORY_SIZE, MAX_PLY};
use vstd::prelude::*;

verus! {

/// The weights of continuation history one, two and four plies back, out of
/// 1024.
pub const CONT_WEIGHTS: [i32; 3] = [1024, 712, 410];

/// A table with one entry updated by gravity.
pub open spec fn bump(t: Seq<i32>, i: int, adj: int) -> Seq<i32> {
    t.update(i, gravity(t[i] as int, adj) as i32)
}

/// The entry of a move after an earlier one.
pub open spec fn cont_entry(base: int, m: Move) -> int {
    base * 1024 + coord_slot(m.from.x, m.from.y) * 32 + coord_slot(m.to.x, m.to.y)
}

/// The update of a move's entry, where the earlier move is known.
pub open spec fn cont_bumped(t: Seq<i32>, base: Option<int>, m: Move, adj: int) -> Seq<i32> {
    match base {
        Some(b) => bump(t, cont_entry(b, m), adj),
        None => t,
    }
}

/// An adjustment weighted for a distance.
pub open spec fn weighted(adj: int, k: int) -> int {
    tdiv(adj * CONT_WEIGHTS@[k], 1024)
}

/// The updates of the first `n` quiet moves after one earlier move: the best
/// one is rewarded, the others are penalized.
pub open spec fn quiets_bumped(
    t: Seq<i32>,
    base: int,
    quiets: Seq<Move>,
    n: nat,
    best: Move,
    w: int,
) -> Seq<i32>
    decreases n,
{
    if n == 0 {
        t
    } else {
        let q = quiets[n - 1];
        bump(
            quiets_bumped(t, base, quiets, (n - 1) as nat, best, w),
            cont_entry(base, q),
            if q.from == best.from && q.to == best.to {
                w
            } else {
                -w
            },
        )
    }
}

/// Whether quiet move `q` is another one than the best move, by kind of piece
/// and destination.
pub open spec fn differs(q: Move, best: Move) -> bool {
    q.piece.piece_type != best.piece.piece_type || square_slot(q.to.x, q.to.y) != square_slot(
        best.to.x,
        best.to.y,
    )
}

/// A history entry after the first `n` quiet moves were penalized.
pub open spec fn penalized(
    entry: int,
    quiets: Seq<Move>,
    n: nat,
    best: Move,
    piece: int,
    to: int,
    malus: int,
) -> int
    decreases n,
{
    if n == 0 {
        entry
    } else {
        let before = penalized(entry, quiets, (n - 1) as nat, best, piece, to, malus);
        let q = quiets[n - 1];
        if differs(q, best) && q.piece.piece_type.index_spec() == piece && square_slot(
            q.to.x,
            q.to.y,
        ) == to {
            gravity(before, -malus)
        } else {
            before
        }
    }
}

/// The main history entry of a kind of piece and a destination after a quiet
/// cutoff.
pub open spec fn history_after(
    entry: int,
    quiets: Seq<Move>,
    n: nat,
    best: Move,
    piece: int,
    to: int,
    bonus: int,
) -> int {
    let start = if best.piece.piece_type.index_spec() == piece && square_slot(best.to.x, best.to.y)
        == to {
        gravity(entry, bonus)
    } else {
        entry
    };
    penalized(start, quiets, n, best, piece, to, bonus)
}

impl Searcher {
    /// The table row of the move made at ply `at`, as the earlier move at
    /// distance number `k`.
    pub open spec fn cont_base(&self, k: int, at: int) -> Option<int> {
        match self.move_history@[at] {
            Some(prev) => if self.moved_piece_history@[at] < 32 {
                Some(
                    (((k * 2 + (if self.capture_history_stack@[at] {
                        1int
                    } else {
                        0
                    })) * 2 + (if self.in_check_history@[at] {
                        1int
                    } else {
                        0
                    })) * 32 + self.moved_piece_history@[at]) * 32 + coord_slot(
                        prev.to.x,
                        prev.to.y,
                    ),
                )
            } else {
                None
            },
            None => None,
        }
    }

    fn cont_base_at(&self, k: usize, at: usize) -> (r: Option<usize>)
        requires
            self.wf(),
            k < 3,
            at < MAX_PLY,
        ensures
            match r {
                Some(b) => self.cont_base(k as int, at as int) == Some(b as int) && b < 12_288,
                None => self.cont_base(k as int, at as int) is None,
            },
    {
        match &self.move_history[at] {
            Some(prev) => {
                let piece: usize = self.moved_piece_history[at] as usize;
                if piece < 32 {
                    let cap: usize = if self.capture_history_stack[at] {
                        1
                    } else {
                        0
                    };
                    let check: usize = if self.in_check_history[at] {
                        1
                    } else {
                        0
                    };
                    Some(
                        (((k * 2 + cap) * 2 + check) * 32 + piece) * 32 + hash_coord_32(
                            prev.to.x,
                            prev.to.y,
                        ),
                    )
                } else {
                    None
                }
            },
            None => None,
        }
    }

    fn bump_cont(&mut self, base: usize, m: &Move, adj: i32)
        requires
            old(self).wf(),
            base < 12_288,
        ensures
            final(self).wf(),
            *final(self) == (Searcher { cont_history: final(self).cont_history, ..*old(self) }),
            final(self).cont_history@ == bump(
                old(self).cont_history@,
                cont_entry(base as int, *m),
                adj as int,
            ),
    {
        let from: usize = hash_coord_32(m.from.x, m.from.y);
        let to: usize = hash_coord_32(m.to.x, m.to.y);
        let i: usize = base * 1024 + from * 32 + to;
        let entry: i32 = self.cont_history[i];
        self.cont_history[i] = gravity_update(entry, adj);
    }

    /// The continuation history after a move at `ply` was adjusted against the
    /// moves one, two and (where `far`) four plies before.
    pub open spec fn cont_adjusted(&self, ply: int, m: Move, adj: int, far: bool) -> Seq<i32> {
        let t0 = self.cont_history@;
        let t1 = if ply >= 1 {
            cont_bumped(t0, self.cont_base(0, ply - 1), m, weighted(adj, 0))
        } else {
            t0
        };
        let t2 = if ply >= 2 {
            cont_bumped(t1, self.cont_base(1, ply - 2), m, weighted(adj, 1))
        } else {
            t1
        };
        if far && ply >= 4 {
            cont_bumped(t2, self.cont_base(2, ply - 4), m, weighted(adj, 2))
        } else {
            t2
        }
    }

    pub fn adjust_continuation(&mut self, ply: usize, m: &Move, adj: i32, far: bool)
        requires
            old(self).wf(),
            ply <= MAX_PLY,
            -200_000 <= adj <= 200_000,
        ensures
            final(self).wf(),
            *final(self) == (Searcher { cont_history: final(self).cont_history, ..*old(self) }),
            final(self).cont_history@ == old(self).cont_adjusted(ply as int, *m, adj as int, far),
    {
        if ply >= 1 {
            if let Some(b) = self.cont_base_at(0, ply - 1) {
                self.bump_cont(b, m, adj * CONT_WEIGHTS[0] / 1024);
            }
        }
        if ply >= 2 {
            if let Some(b) = self.cont_base_at(1, ply - 2) {
                self.bump_cont(b, m, adj * CONT_WEIGHTS[1] / 1024);
            }
        }
        if far && ply >= 4 {
            if let Some(b) = self.cont_base_at(2, ply - 4) {
                self.bump_cont(b, m, adj * CONT_WEIGHTS[2] / 1024);
            }
        }
    }

    fn bump_quiets(&mut self, base: usize, quiets: &Vec<Move>, best: &Move, w: i32)
        requires
            old(self).wf(),
            base < 12_288,
            -200_000 <= w <= 200_000,
        ensures
            final(self).wf(),
            *final(self) == (Searcher { cont_history: final(self).cont_history, ..*old(self) }),
            final(self).cont_history@ == quiets_bumped(
                old(self).cont_history@,
                base as int,
                quiets@,
                quiets@.len(),
                *best,
                w as int,
            ),
    {
        let mut i: usize = 0;
        while i < quiets.len()
            invariant
                i <= quiets@.len(),
                self.wf(),
                base < 12_288,
                -200_000 <= w <= 200_000,
                *self == (Searcher { cont_history: self.cont_history, ..*old(self) }),
                self.cont_history@ == quiets_bumped(
                    old(self).cont_history@,
                    base as int,
                    quiets@,
                    i as nat,
                    *best,
                    w as int,
                ),
            decreases quiets@.len() - i,
        {
            let q = quiets[i];
            let is_best = q.from == best.from && q.to == best.to;
            self.bump_cont(
                base,
                &q,
                if is_best {
                    w
                } else {
                    -w
                },
            );
            i += 1;
        }
    }

    /// The continuation history after a quiet cutoff.
    pub open spec fn cont_after_cutoff(
        &self,
        ply: int,
        quiets: Seq<Move>,
        best: Move,
        bonus: int,
        in_check: bool,
    ) -> Seq<i32> {
        let t0 = self.cont_history@;
        let n = quiets.len();
        let t1 = if ply >= 1 && self.cont_base(0, ply - 1) is Some {
            quiets_bumped(
                t0,
                self.cont_base(0, ply - 1)->0,
                quiets,
                n,
                best,
                weighted(bonus, 0),
            )
        } else {
            t0
        };
        let t2 = if ply >= 2 && self.cont_base(1, ply - 2) is Some {
            quiets_bumped(
                t1,
                self.cont_base(1, ply - 2)->0,
                quiets,
                n,
                best,
                weighted(bonus, 1),
            )
        } else {
            t1
        };
        if !in_check && ply >= 4 && self.cont_base(2, ply - 4) is Some {
            quiets_bumped(
                t2,
                self.cont_base(2, ply - 4)->0,
                quiets,
                n,
                best,
                weighted(bonus, 2),
            )
        } else {
            t2
        }
    }

    fn learn_continuation(
        &mut self,
        ply: usize,
        quiets: &Vec<Move>,
        best: &Move,
        bonus: i32,
        in_check: bool,
    )
        requires
            old(self).wf(),
            ply < MAX_PLY,
            -2000 <= bonus <= 2000,
        ensures
            final(self).wf(),
            *final(self) == (Searcher { cont_history: final(self).cont_history, ..*old(self) }),
            final(self).cont_history@ == old(self).cont_after_cutoff(
                ply as int,
                quiets@,
                *best,
                bonus as int,
                in_check,
            ),
    {
        if ply >= 1 {
            if let Some(b) = self.cont_base_at(0, ply - 1) {
                self.bump_quiets(b, quiets, best, bonus * CONT_WEIGHTS[0] / 1024);
            }
        }
        if ply >= 2 {
            if let Some(b) = self.cont_base_at(1, ply - 2) {
                self.bump_quiets(b, quiets, best, bonus * CONT_WEIGHTS[1] / 1024);
            }
        }
        if !in_check && ply >= 4 {
            if let Some(b) = self.cont_base_at(2, ply - 4) {
                self.bump_quiets(b, quiets, best, bonus * CONT_WEIGHTS[2] / 1024);
            }
        }
    }

    /// The killers after a move became the first one of a ply, and the first
    /// one the second.
    pub open spec fn killer_pushed(&self, before: &Searcher, ply: int, m: Move) -> bool {
        &&& self.killers@.len() == before.killers@.len()
        &&& self.killers@[ply]@ == seq![Some(m), before.killers@[ply]@[0]]
        &&& forall|i: int|
            0 <= i < MAX_PLY && i != ply ==> #[trigger] self.killers@[i] == before.killers@[i]
    }

    /// Makes a move the first killer of a ply; the first becomes the second.
    pub fn push_killer(&mut self, ply: usize, m: &Move)
        requires
            old(self).wf(),
            ply < MAX_PLY,
        ensures
            final(self).wf(),
            *final(self) == (Searcher { killers: final(self).killers, ..*old(self) }),
            final(self).killer_pushed(old(self), ply as int, *m),
    {
        let first = self.killers[ply][0];
        self.killers[ply] = [Some(*m), first];
        assert(self.killers@[ply as int]@ =~= seq![Some(*m), old(self).killers@[ply as int]@[0]]);
    }

    /// The countermoves after a move was noted as the answer to the move before
    /// it.
    pub open spec fn answer_noted(&self, before: &Searcher, ply: int, m: Move) -> bool {
        let (from, to) = before.prev_move_stack@[ply - 1];
        &&& ply > 0 && from < 256 && to < 256 ==> self.countermoves@[from as int]@[to as int] == (
            m.piece.piece_type.index_spec() as u8,
            m.to.x as i16,
            m.to.y as i16,
        )
        &&& forall|i: int, j: int|
            0 <= i < 256 && 0 <= j < 256 && !(ply > 0 && i == from && j == to)
                ==> #[trigger] self.countermoves@[i]@[j] == before.countermoves@[i]@[j]
    }

    /// Notes a move as the answer to the move before it.
    pub fn set_countermove(&mut self, ply: usize, m: &Move)
        requires
            old(self).wf(),
            ply < MAX_PLY,
        ensures
            final(self).wf(),
            *final(self) == (Searcher { countermoves: final(self).countermoves, ..*old(self) }),
            final(self).answer_noted(old(self), ply as int, *m),
    {
        if ply > 0 {
            let (from, to) = self.prev_move_stack[ply - 1];
            if from < 256 && to < 256 {
                let x: i16 = #[verifier::truncate]
                (m.to.x as i16);
                let y: i16 = #[verifier::truncate]
                (m.to.y as i16);
                self.countermoves[from][to] = (m.piece.piece_type.index() as u8, x, y);
            }
        }
    }
}

/// An entry near the root after the first `n` quiet moves were penalized.
pub open spec fn low_penalized(
    entry: int,
    quiets: Seq<Move>,
    n: nat,
    best: Move,
    to: int,
    malus: int,
) -> int
    decreases n,
{
    if n == 0 {
        entry
    } else {
        let before = low_penalized(entry, quiets, (n - 1) as nat, best, to, malus);
        let q = quiets[n - 1];
        if differs(q, best) && square_slot(q.to.x, q.to.y) == to {
            gravity(before, -malus)
        } else {
            before
        }
    }
}

/// Under one pawn structure, different moves have different entries, all in
/// one row of the table.
proof fn lemma_pawn_slots(pawn_hash: u64)
    ensures
        forall|p: int, j: int|
            0 <= p < 32 && 0 <= j < 256 ==> {
                &&& 0 <= #[trigger] pawn_slot(pawn_hash, p, j) < PAWN_HISTORY_ENTRIES
                &&& pawn_slot(pawn_hash, p, j) / 8192 == pawn_slot(pawn_hash, 0, 0) / 8192
            },
        forall|p: int, j: int, q: int, k: int|
            0 <= p < 32 && 0 <= j < 256 && 0 <= q < 32 && 0 <= k < 256 && #[trigger] pawn_slot(
                pawn_hash,
                p,
                j,
            ) == #[trigger] pawn_slot(pawn_hash, q, k) ==> p == q && j == k,
{
}

fn is_other(q: &Move, best: &Move) -> (r: bool)
    ensures
        r == differs(*q, *best),
{
    q.piece.piece_type != best.piece.piece_type || hash_move_dest(q) != hash_move_dest(best)
}

impl Searcher {
    /// Penalizes the quiet moves that were searched before the best one.
    fn penalize_history(&mut self, quiets: &Vec<Move>, best: &Move, bonus: i32)
        requires
            old(self).wf(),
            -2000 <= bonus <= 2000,
        ensures
            final(self).wf(),
            *final(self) == (Searcher { history: final(self).history, ..*old(self) }),
            forall|p: int, j: int|
                0 <= p < 32 && 0 <= j < 256 ==> #[trigger] final(self).history@[p]@[j]
                    == penalized(
                    old(self).history@[p]@[j] as int,
                    quiets@,
                    quiets@.len(),
                    *best,
                    p,
                    j,
                    bonus as int,
                ),
    {
        let mut i: usize = 0;
        while i < quiets.len()
            invariant
                i <= quiets@.len(),
                self.wf(),
                -2000 <= bonus <= 2000,
                *self == (Searcher { history: self.history, ..*old(self) }),
                forall|p: int, j: int|
                    0 <= p < 32 && 0 <= j < 256 ==> #[trigger] self.history@[p]@[j] == penalized(
                        old(self).history@[p]@[j] as int,
                        quiets@,
                        i as nat,
                        *best,
                        p,
                        j,
                        bonus as int,
                    ),
            decreases quiets@.len() - i,
        {
            let q = quiets[i];
            if is_other(&q, best) {
                self.update_history(q.piece.piece_type, hash_move_dest(&q), -bonus);
            }
            i += 1;
        }
    }

    /// Penalizes quiet moves under the pawn structure.
    fn penalize_pawn_history(
        &mut self,
        pawn_hash: u64,
        quiets: &Vec<Move>,
        best: &Move,
        malus: i32,
    )
        requires
            old(self).wf(),
            -4000 <= malus <= 4000,
        ensures
            final(self).wf(),
            *final(self) == (Searcher { pawn_history: final(self).pawn_history, ..*old(self) }),
            forall|p: int, j: int|
                0 <= p < 32 && 0 <= j < 256 ==> final(self).pawn_history@[#[trigger] pawn_slot(
                    pawn_hash,
                    p,
                    j,
                )] == penalized(
                    old(self).pawn_history@[pawn_slot(pawn_hash, p, j)] as int,
                    quiets@,
                    quiets@.len(),
                    *best,
                    p,
                    j,
                    malus as int,
                ),
            forall|i: int|
                0 <= i < PAWN_HISTORY_ENTRIES && i / 8192 != pawn_slot(pawn_hash, 0, 0) / 8192
                    ==> #[trigger] final(self).pawn_history@[i] == old(self).pawn_history@[i],
    {
        let mut i: usize = 0;
        while i < quiets.len()
            invariant
                i <= quiets@.len(),
                self.wf(),
                -4000 <= malus <= 4000,
                *self == (Searcher { pawn_history: self.pawn_history, ..*old(self) }),
                forall|p: int, j: int|
                    0 <= p < 32 && 0 <= j < 256 ==> self.pawn_history@[#[trigger] pawn_slot(
                        pawn_hash,
                        p,
                        j,
                    )] == penalized(
                        old(self).pawn_history@[pawn_slot(pawn_hash, p, j)] as int,
                        quiets@,
                        i as nat,
                        *best,
                        p,
                        j,
                        malus as int,
                    ),
                forall|k: int|
                    0 <= k < PAWN_HISTORY_ENTRIES && k / 8192 != pawn_slot(pawn_hash, 0, 0) / 8192
                        ==> #[trigger] self.pawn_history@[k] == old(self).pawn_history@[k],
            decreases quiets@.len() - i,
        {
            let q = quiets[i];
            if is_other(&q, best) {
                let piece = q.piece.piece_type;
                let to: usize = hash_move_dest(&q);
                proof {
                    lemma_pawn_slots(pawn_hash);
                    piece.lemma_index();
                }
                self.update_pawn_history(pawn_hash, piece, to, -malus);
            }
            i += 1;
        }
    }

    /// Penalizes quiet moves near the root.
    fn penalize_low_ply(&mut self, ply: usize, quiets: &Vec<Move>, best: &Move, bonus: i32)
        requires
            old(self).wf(),
            -2000 <= bonus <= 2000,
        ensures
            final(self).wf(),
            *final(self) == (Searcher {
                low_ply_history: final(self).low_ply_history,
                ..*old(self)
            }),
            forall|p: int, j: int|
                0 <= p < LOW_PLY_HISTORY_SIZE && 0 <= j < LOW_PLY_HISTORY_ENTRIES ==> #[trigger]
                final(self).low_ply_history@[p]@[j] == (if p == ply {
                    low_penalized(
                        old(self).low_ply_history@[p]@[j] as int,
                        quiets@,
                        quiets@.len(),
                        *best,
                        j,
                        bonus as int,
                    )
                } else {
                    old(self).low_ply_history@[p]@[j] as int
                }),
    {
        let mut i: usize = 0;
        while i < quiets.len()
            invariant
                i <= quiets@.len(),
                self.wf(),
                -2000 <= bonus <= 2000,
                *self == (Searcher { low_ply_history: self.low_ply_history, ..*old(self) }),
                forall|p: int, j: int|
                    0 <= p < LOW_PLY_HISTORY_SIZE && 0 <= j < LOW_PLY_HISTORY_ENTRIES
                        ==> #[trigger] self.low_ply_history@[p]@[j] == (if p == ply {
                        low_penalized(
                            old(self).low_ply_history@[p]@[j] as int,
                            quiets@,
                            i as nat,
                            *best,
                            j,
                            bonus as int,
                        )
                    } else {
                        old(self).low_ply_history@[p]@[j] as int
                    }),
            decreases quiets@.len() - i,
        {
            let q = quiets[i];
            if is_other(&q, best) {
                let to: usize = hash_move_dest(&q);
                self.update_low_ply_history(ply, to, -bonus);
            }
            i += 1;
        }
    }

    /// What was learned from a quiet move that failed high: it is rewarded in
    /// all histories and becomes a killer and a countermove; the quiet moves
    /// searched before it are penalized.
    pub open spec fn cutoff_learned(
        &self,
        before: &Searcher,
        ply: int,
        depth: int,
        best: Move,
        quiets: Seq<Move>,
        pawn_hash: u64,
        in_check: bool,
    ) -> bool {
        let bonus = bonus_for(depth);
        let piece = best.piece.piece_type.index_spec();
        let to = square_slot(best.to.x, best.to.y);
        &&& *self == (Searcher {
            history: self.history,
            pawn_history: self.pawn_history,
            low_ply_history: self.low_ply_history,
            killers: self.killers,
            countermoves: self.countermoves,
            cont_history: self.cont_history,
            ..*before
        })
        &&& forall|p: int, j: int|
            0 <= p < 32 && 0 <= j < 256 ==> #[trigger] self.history@[p]@[j] == history_after(
                before.history@[p]@[j] as int,
                quiets,
                quiets.len(),
                best,
                p,
                j,
                bonus,
            )
        &&& forall|p: int, j: int|
            0 <= p < 32 && 0 <= j < 256 ==> self.pawn_history@[#[trigger] pawn_slot(
                pawn_hash,
                p,
                j,
            )] == penalized(
                if piece == p && to == j {
                    gravity(
                        before.pawn_history@[pawn_slot(pawn_hash, p, j)] as int,
                        bonus * DEFAULT_PAWN_HISTORY_BONUS_SCALE,
                    )
                } else {
                    before.pawn_history@[pawn_slot(pawn_hash, p, j)] as int
                },
                quiets,
                quiets.len(),
                best,
                p,
                j,
                bonus * DEFAULT_PAWN_HISTORY_MALUS_SCALE,
            )
        &&& forall|i: int|
            0 <= i < PAWN_HISTORY_ENTRIES && i / 8192 != pawn_slot(pawn_hash, 0, 0) / 8192
                ==> #[trigger] self.pawn_history@[i] == before.pawn_history@[i]
        &&& forall|p: int, j: int|
            0 <= p < LOW_PLY_HISTORY_SIZE && 0 <= j < LOW_PLY_HISTORY_ENTRIES
                ==> #[trigger] self.low_ply_history@[p]@[j] == (if p == ply {
                low_penalized(
                    if to == j {
                        gravity(before.low_ply_history@[p]@[j] as int, bonus)
                    } else {
                        before.low_ply_history@[p]@[j] as int
                    },
                    quiets,
                    quiets.len(),
                    best,
                    j,
                    bonus,
                )
            } else {
                before.low_ply_history@[p]@[j] as int
            })
        &&& self.killer_pushed(before, ply, best)
        &&& self.answer_noted(before, ply, best)
        &&& self.cont_history@ == before.cont_after_cutoff(ply, quiets, best, bonus, in_check)
    }

    /// Learns from a quiet move that failed high at `ply`.
    pub fn learn_quiet_cutoff(
        &mut self,
        ply: usize,
        depth: usize,
        best: &Move,
        quiets: &Vec<Move>,
        pawn_hash: u64,
        in_check: bool,
    )
        requires
            old(self).wf(),
            ply < MAX_PLY,
            depth <= DEPTH_LIMIT,
        ensures
            final(self).wf(),
            final(self).cutoff_learned(
                old(self),
                ply as int,
                depth as int,
                *best,
                quiets@,
                pawn_hash,
                in_check,
            ),
    {
        let idx: usize = hash_move_dest(best);
        let pt = best.piece.piece_type;
        let bonus: i32 = history_bonus(depth);
        proof {
            lemma_pawn_slots(pawn_hash);
            pt.lemma_index();
        }
        self.update_history(pt, idx, bonus);
        self.penalize_history(quiets, best, bonus);
        self.update_pawn_history(pawn_hash, pt, idx, bonus * DEFAULT_PAWN_HISTORY_BONUS_SCALE);
        self.penalize_pawn_history(
            pawn_hash,
            quiets,
            best,
            bonus * DEFAULT_PAWN_HISTORY_MALUS_SCALE,
        );
        self.update_low_ply_history(ply, idx, bonus);
        self.penalize_low_ply(ply, quiets, best, bonus);
        self.push_killer(ply, best);
        self.set_countermove(ply, best);
        self.learn_continuation(ply, quiets, best, bonus, in_check);
        assert(forall|k: int, at: int| #[trigger]
            self.cont_base(k, at) == old(self).cont_base(k, at));
    }

    /// The capture history entry after a cutoff by a capture at a depth, or
    /// after a capture that did not cut off.
    pub open spec fn capture_after(entry: int, depth: int, cutoff: bool) -> int {
        let e = if cutoff {
            let bonus = 8 * (depth * depth);
            entry + bonus - (entry * bonus) / 16384
        } else {
            let malus = 2 * depth;
            entry - malus - (entry * malus) / 16384
        };
        clamp(e, -CAPTURE_HISTORY_LIMIT, CAPTURE_HISTORY_LIMIT as int)
    }

    /// What was learned from a capture.
    pub open spec fn capture_learned(
        &self,
        before: &Searcher,
        piece: PieceType,
        captured: PieceType,
        depth: int,
        cutoff: bool,
    ) -> bool {
        let p = piece.index_spec();
        let c = captured.index_spec();
        &&& *self == (Searcher { capture_history: self.capture_history, ..*before })
        &&& self.capture_history@[p]@[c] == Self::capture_after(
            before.capture_history@[p]@[c] as int,
            depth,
            cutoff,
        )
        &&& same_but(self.capture_history@, before.capture_history@, p, c)
    }

    pub fn learn_capture(
        &mut self,
        piece: PieceType,
        captured: PieceType,
        depth: usize,
        cutoff: bool,
    )
        requires
            old(self).wf(),
            depth <= DEPTH_LIMIT,
        ensures
            final(self).wf(),
            final(self).capture_learned(old(self), piece, captured, depth as int, cutoff),
    {
        let p: usize = piece.index();
        let c: usize = captured.index();
        let e: i64 = self.capture_history[p][c] as i64;
        assert(0 <= depth * depth <= 1_000_000) by (nonlinear_arith)
            requires
                0 <= depth <= 1000,
        ;
        let amount: i64 = if cutoff {
            8 * (depth * depth) as i64
        } else {
            2 * depth as i64
        };
        assert(-0x20_0000_0000_0000 <= e * amount <= 0x20_0000_0000_0000) by (nonlinear_arith)
            requires
                -0x4000_0000 <= e <= 0x4000_0000,
                0 <= amount <= 8_000_000,
        ;
        let product: i64 = e * amount;
        assert((product >> 14) == product / 16384) by (bit_vector);
        let next: i64 = if cutoff {
            e + amount - (product >> 14)
        } else {
            e - amount - (product >> 14)
        };
        self.capture_history[p][c] =
        clamp_i64(next, -(CAPTURE_HISTORY_LIMIT as i64), CAPTURE_HISTORY_LIMIT as i64) as i32;
    }

    /// The reliability of table moves after an observation.
    pub open spec fn tt_reliability(history: int, delta: int) -> int {
        history + delta - (history * abs(delta)) / 8192
    }

    pub fn learn_tt_move(&mut self, delta: i32)
        requires
            old(self).wf(),
            -8192 <= delta <= 8192,
        ensures
            final(self).wf(),
            *final(self) == (Searcher {
                tt_move_history: Self::tt_reliability(
                    old(self).tt_move_history as int,
                    delta as int,
                ) as i32,
                ..*old(self)
            }),
    {
        let h: i32 = self.tt_move_history;
        let a: i32 = abs_i32(delta);
        assert(-67_108_864 <= h * a <= 67_108_864) by (nonlinear_arith)
            requires
                -8192 <= h <= 8192,
                0 <= a <= 8192,
        ;
        let p: i32 = h * a;
        assert((p >> 13) == p / 8192) by (bit_vector);
        proof {
            crate::search::searcher::lemma_gravity_bounds(h as int, delta as int, 8192);
        }
        self.tt_move_history = h + delta - (p >> 13);
    }

    /// What was learned from a node that failed low: the opponent's move before
    /// it is rewarded with half the bonus of a cutoff, if it was quiet.
    pub open spec fn fail_low_learned(
        &self,
        before: &Searcher,
        ply: int,
        depth: int,
        pawn_hash: u64,
        in_check: bool,
    ) -> bool {
        let prev = before.move_history@[ply - 1];
        let piece = before.moved_piece_history@[ply - 1];
        let bonus = tdiv(bonus_for(depth), 2);
        if !before.capture_history_stack@[ply - 1] && prev is Some && piece < 32 {
            let m = prev->0;
            let to = square_slot(m.to.x, m.to.y);
            &&& *self == (Searcher {
                history: self.history,
                pawn_history: self.pawn_history,
                cont_history: self.cont_history,
                ..*before
            })
            &&& self.cont_history@ == before.cont_adjusted(ply - 1, m, bonus, !in_check)
            &&& self.history@[piece as int]@[to] == gravity(
                before.history@[piece as int]@[to] as int,
                bonus,
            )
            &&& same_but(self.history@, before.history@, piece as int, to)
            &&& self.pawn_history@ == (if piece != PieceType::Pawn.index_spec()
                && m.promotion is None {
                bump(
                    before.pawn_history@,
                    pawn_slot(pawn_hash, piece as int, to),
                    bonus * DEFAULT_PAWN_HISTORY_BONUS_SCALE,
                )
            } else {
                before.pawn_history@
            })
        } else {
            *self == *before
        }
    }

    /// Rewards the opponent's move before a node that failed low.
    pub fn learn_fail_low(&mut self, ply: usize, depth: usize, pawn_hash: u64, in_check: bool)
        requires
            old(self).wf(),
            0 < ply < MAX_PLY,
            depth <= DEPTH_LIMIT,
        ensures
            final(self).wf(),
            final(self).fail_low_learned(
                old(self),
                ply as int,
                depth as int,
                pawn_hash,
                in_check,
            ),
    {
        if self.capture_history_stack[ply - 1] {
            return;
        }
        let m = match self.move_history[ply - 1] {
            Some(m) => m,
            None => {
                return;
            },
        };
        let piece: usize = self.moved_piece_history[ply - 1] as usize;
        if piece >= 32 {
            return;
        }
        let bonus: i32 = history_bonus(depth) / 2;
        self.adjust_continuation(ply - 1, &m, bonus, !in_check);
        let to: usize = hash_move_dest(&m);
        let entry: i32 = self.history[piece][to];
        self.history[piece][to] = gravity_update(entry, bonus);
        if piece != PieceType::Pawn.index() && m.promotion.is_none() {
            let i: usize = pawn_history_index(pawn_hash, piece, to);
            let pawn_entry: i32 = self.pawn_history[i];
            self.pawn_history[i] =
            gravity_update(pawn_entry, bonus * DEFAULT_PAWN_HISTORY_BONUS_SCALE);
        }
    }
}

} // verus!
