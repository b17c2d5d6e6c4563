//! What a search keeps on its stacks while it goes down and up the tree.
use crate::arith::tdiv;
use crate::moves::Move;
use crate::search::ordering::{hash_move_dest, hash_move_from, square_slot};
use crate::search::searcher::{
    eval_bound, ClockReading, Searcher, SearcherHot, EVAL_DRIFT, NOISE_LIMIT,
};
use crate::search::{get_noise, noise, CorrHistMode, Prng, INFINITY, MAX_PLY};
use vstd::prelude::*;

verus! {

/// What the search of a node leaves as it was: the path to the node, the
/// settings of the search and the results of earlier iterations.
pub struct Bearings {
    pub squares: Seq<(usize, usize)>,
    pub moves: Seq<Option<Move>>,
    pub pieces: Seq<u8>,
    pub excluded: Seq<(i64, i64, i64, i64)>,
    pub best_move_root: Option<Move>,
    pub prev_score: i32,
    pub noise_amp: i32,
    pub seed: u64,
    pub rng: Prng,
    pub completed_depth: usize,
    pub silent: bool,
    pub thread_id: usize,
    pub corrhist_mode: CorrHistMode,
    pub move_rule_limit: i32,
    pub time_limit_ms: u128,
    pub min_depth_required: usize,
    pub optimum_time_ms: u128,
    pub maximum_time_ms: u128,
    pub best_move_changes: u64,
    pub best_move_nodes: u64,
    pub best_previous_average_score: i32,
    pub iter_values: [i32; 4],
    pub iter_idx: usize,
    pub last_best_move_depth: usize,
    pub is_soft_limit: bool,
}

/// What the stacks held of a ply before a move was made there.
#[derive(Clone, Copy)]
pub struct PlyRecord {
    pub squares: (usize, usize),
    pub made: Option<Move>,
    pub piece: u8,
    pub in_check: bool,
    pub capture: bool,
}

impl Searcher {
    /// [`Searcher::wf`], with noise that can be added to an evaluation, as callers
    /// that do not look inside see it.
    pub closed spec fn valid(&self) -> bool {
        self.wf() && self.noise_amp <= NOISE_LIMIT
    }

    pub proof fn lemma_valid(&self)
        ensures
            self.valid() == (self.wf() && self.noise_amp <= NOISE_LIMIT),
    {
    }

    #[verifier::opaque]
    pub open spec fn bearings(&self) -> Bearings {
        Bearings {
            squares: self.prev_move_stack@,
            moves: self.move_history@,
            pieces: self.moved_piece_history@,
            excluded: self.excluded_moves@,
            best_move_root: self.best_move_root,
            prev_score: self.prev_score,
            noise_amp: self.noise_amp,
            seed: self.seed,
            rng: self.rng,
            completed_depth: self.completed_depth,
            silent: self.silent,
            thread_id: self.thread_id,
            corrhist_mode: self.corrhist_mode,
            move_rule_limit: self.move_rule_limit,
            time_limit_ms: self.hot.time_limit_ms,
            min_depth_required: self.hot.min_depth_required,
            optimum_time_ms: self.hot.optimum_time_ms,
            maximum_time_ms: self.hot.maximum_time_ms,
            best_move_changes: self.hot.best_move_changes,
            best_move_nodes: self.hot.best_move_nodes,
            best_previous_average_score: self.hot.best_previous_average_score,
            iter_values: self.hot.iter_values,
            iter_idx: self.hot.iter_idx,
            last_best_move_depth: self.hot.last_best_move_depth,
            is_soft_limit: self.hot.is_soft_limit,
        }
    }

    /// A later state of the same search at the same node: nothing that was to
    /// be kept was lost, no node was uncounted and no stop was taken back. Without
    /// a time limit, and until the first depth is complete, it did not stop.
    pub open spec fn goes_on(&self, before: &Searcher) -> bool {
        &&& self.valid()
        &&& self.bearings() == before.bearings()
        &&& self.hot.nodes >= before.hot.nodes
        &&& before.hot.stopped ==> self.hot.stopped
        &&& before.bearings().is_untimed() ==> self.hot.stopped == before.hot.stopped
    }

    /// A later state of the same search at any node: only what the stacks say of
    /// the moves on the way may differ from [`Searcher::goes_on`].
    pub open spec fn continues(&self, before: &Searcher) -> bool {
        &&& self.valid()
        &&& self.bearings() == (Bearings {
            squares: self.bearings().squares,
            moves: self.bearings().moves,
            pieces: self.bearings().pieces,
            ..before.bearings()
        })
        &&& self.hot.nodes >= before.hot.nodes
        &&& before.hot.stopped ==> self.hot.stopped
        &&& before.bearings().is_untimed() ==> self.hot.stopped == before.hot.stopped
    }

    /// The principal variations are those of an earlier state.
    pub open spec fn same_pv(&self, before: &Searcher) -> bool {
        self.pv_table == before.pv_table && self.pv_length == before.pv_length
    }

    /// The principal variations of the plies before `ply` are those of an
    /// earlier state.
    pub open spec fn keeps_pv_before(&self, before: &Searcher, ply: int) -> bool {
        &&& forall|i: int|
            0 <= i < ply * MAX_PLY ==> #[trigger] self.pv_table@[i] == before.pv_table@[i]
        &&& forall|q: int|
            0 <= q < ply ==> #[trigger] self.pv_length@[q] == before.pv_length@[q]
    }

    /// The principal variation from a ply on.
    pub open spec fn pv_line(&self, ply: int) -> Seq<Option<Move>> {
        self.pv_table@.subrange(ply * MAX_PLY, ply * MAX_PLY + self.pv_length@[ply])
    }

    /// The number of plies since the last null move, on entering a node.
    pub open spec fn plies_since_null(&self, ply: int, was_null_move: bool) -> u8 {
        let before = if was_null_move {
            0u8
        } else if ply > 0 {
            self.plies_from_null@[ply - 1]
        } else {
            255
        };
        if before == 255 {
            255
        } else {
            (before + 1) as u8
        }
    }

    /// A node was counted, and its stack entries and those of its descendants
    /// were set back.
    pub open spec fn node_entered(
        &self,
        before: &Searcher,
        ply: int,
        was_null_move: bool,
    ) -> bool {
        &&& *self == (Searcher {
            hot: SearcherHot {
                nodes: (if before.hot.nodes == u64::MAX {
                    u64::MAX
                } else {
                    (before.hot.nodes + 1) as u64
                }),
                ..before.hot
            },
            pv_length: self.pv_length,
            cutoff_cnt: self.cutoff_cnt,
            stat_score_stack: self.stat_score_stack,
            plies_from_null: self.plies_from_null,
            ..*before
        })
        &&& self.pv_length@ == before.pv_length@.update(ply, 0)
        &&& self.cutoff_cnt@ == (if ply + 2 < MAX_PLY {
            before.cutoff_cnt@.update(ply + 2, 0)
        } else {
            before.cutoff_cnt@
        })
        &&& forall|i: int|
            0 <= i < MAX_PLY ==> #[trigger] self.stat_score_stack@[i] == (if i == ply + 2 || i
                == ply + 4 {
                0
            } else {
                before.stat_score_stack@[i]
            })
        &&& self.plies_from_null@ == before.plies_from_null@.update(
            ply,
            before.plies_since_null(ply, was_null_move),
        )
    }

    /// Counts a node and sets its stack entries and those of its descendants
    /// back.
    pub fn enter_node(&mut self, ply: usize, was_null_move: bool)
        requires
            old(self).valid(),
            ply < MAX_PLY,
        ensures
            final(self).goes_on(old(self)),
            final(self).node_entered(old(self), ply as int, was_null_move),
            final(self).keeps_pv_before(old(self), ply as int),
    {
        self.hot.nodes = self.hot.nodes.saturating_add(1);
        self.pv_length[ply] = 0;
        if ply + 2 < MAX_PLY {
            self.cutoff_cnt[ply + 2] = 0;
            self.stat_score_stack[ply + 2] = 0;
        }
        if ply + 4 < MAX_PLY {
            self.stat_score_stack[ply + 4] = 0;
        }
        let before: u8 = if was_null_move {
            0
        } else if ply > 0 {
            self.plies_from_null[ply - 1]
        } else {
            255
        };
        self.plies_from_null[ply] = before.saturating_add(1);
        proof {
            reveal(Searcher::bearings);
        }
    }

    /// Counts a quiescence node, and the depth that it reached.
    pub fn enter_quiescence(&mut self, ply: usize)
        requires
            old(self).valid(),
        ensures
            final(self).goes_on(old(self)),
            *final(self) == (Searcher {
                hot: SearcherHot {
                    nodes: (if old(self).hot.nodes == u64::MAX {
                        u64::MAX
                    } else {
                        (old(self).hot.nodes + 1) as u64
                    }),
                    qnodes: (if old(self).hot.qnodes == u64::MAX {
                        u64::MAX
                    } else {
                        (old(self).hot.qnodes + 1) as u64
                    }),
                    seldepth: (if ply > old(self).hot.seldepth {
                        ply
                    } else {
                        old(self).hot.seldepth
                    }),
                    ..old(self).hot
                },
                ..*old(self)
            }),
    {
        self.hot.nodes = self.hot.nodes.saturating_add(1);
        self.hot.qnodes = self.hot.qnodes.saturating_add(1);
        if ply > self.hot.seldepth {
            self.hot.seldepth = ply;
        }
        proof {
            reveal(Searcher::bearings);
        }
    }

    /// Notes how deep the principal variation went.
    pub fn note_seldepth(&mut self, ply: usize)
        requires
            old(self).valid(),
        ensures
            final(self).goes_on(old(self)),
            *final(self) == (Searcher {
                hot: SearcherHot {
                    seldepth: (if ply > old(self).hot.seldepth {
                        ply
                    } else {
                        old(self).hot.seldepth
                    }),
                    ..old(self).hot
                },
                ..*old(self)
            }),
    {
        if ply > self.hot.seldepth {
            self.hot.seldepth = ply;
        }
        proof {
            reveal(Searcher::bearings);
        }
    }

    /// Whether the search has to stop; see [`Searcher::check_time`].
    pub fn poll_time(&mut self, clock: &ClockReading) -> (r: bool)
        requires
            old(self).valid(),
        ensures
            final(self).goes_on(old(self)),
            final(self).same_pv(old(self)),
            r == old(self).hot.must_stop(*clock),
            *final(self) == (Searcher { hot: old(self).hot.polled(*clock), ..*old(self) }),
    {
        let r = self.check_time(clock);
        proof {
            reveal(Searcher::bearings);
        }
        r
    }

    /// The index of the last move for the correction tables; zero at the root.
    pub open spec fn last_move_index(&self, ply: int) -> usize {
        if ply > 0 {
            self.prev_move_stack@[ply - 1].0 ^ self.prev_move_stack@[ply - 1].1
        } else {
            0
        }
    }

    pub fn prev_move_index(&self, ply: usize) -> (r: usize)
        requires
            self.valid(),
            ply <= MAX_PLY,
        ensures
            r == self.last_move_index(ply as int),
    {
        if ply > 0 {
            let (from, to) = self.prev_move_stack[ply - 1];
            from ^ to
        } else {
            0
        }
    }

    /// The reduction that the move to a node was searched with was taken off the
    /// stack.
    pub open spec fn reduction_taken(&self, before: &Searcher, ply: int) -> bool {
        &&& *self == (Searcher { reduction_stack: self.reduction_stack, ..*before })
        &&& self.reduction_stack@ == (if ply > 0 {
            before.reduction_stack@.update(ply - 1, 0)
        } else {
            before.reduction_stack@
        })
    }

    /// The reduction that the move to this node was searched with; it is taken
    /// off the stack.
    pub fn take_reduction(&mut self, ply: usize) -> (r: i32)
        requires
            old(self).valid(),
            ply < MAX_PLY,
        ensures
            final(self).goes_on(old(self)),
            final(self).reduction_taken(old(self), ply as int),
            ply == 0 ==> r == 0,
            ply > 0 ==> r == old(self).reduction_stack@[ply - 1],
    {
        let r: i32 = if ply > 0 {
            let r: i32 = self.reduction_stack[ply - 1];
            self.reduction_stack[ply - 1] = 0;
            r
        } else {
            0
        };
        proof {
            reveal(Searcher::bearings);
        }
        r
    }

    /// The reduction of the move at a ply was put on the stack.
    pub open spec fn reduction_put(&self, before: &Searcher, ply: int, reduction: i32) -> bool {
        &&& *self == (Searcher { reduction_stack: self.reduction_stack, ..*before })
        &&& self.reduction_stack@ == before.reduction_stack@.update(ply, reduction)
    }

    pub fn set_reduction(&mut self, ply: usize, reduction: i32)
        requires
            old(self).valid(),
            ply < MAX_PLY,
            0 <= reduction <= MAX_PLY,
        ensures
            final(self).goes_on(old(self)),
            final(self).reduction_put(old(self), ply as int, reduction),
    {
        self.reduction_stack[ply] = reduction;
        proof {
            reveal(Searcher::bearings);
        }
    }

    /// The evaluation two plies before, which stands in for one in check.
    pub open spec fn eval_before(&self, ply: int) -> i32 {
        if ply >= 2 {
            self.eval_stack@[ply - 2]
        } else {
            0
        }
    }

    pub fn earlier_eval(&self, ply: usize) -> (r: i32)
        requires
            self.valid(),
            ply < MAX_PLY,
        ensures
            r == self.eval_before(ply as int),
            -eval_bound(ply as int) + EVAL_DRIFT <= r <= eval_bound(ply as int) - EVAL_DRIFT,
    {
        if ply >= 2 {
            self.eval_stack[ply - 2]
        } else {
            0
        }
    }

    /// An evaluation smoothed by the success of the move before, with noise.
    pub open spec fn smoothed(&self, ply: int, eval: int, hash: u64) -> int {
        eval + (if ply > 0 {
            tdiv(-self.stat_score_stack@[ply - 1], 512)
        } else {
            0
        }) + (if self.noise_amp > 0 {
            noise(self.seed, hash, self.noise_amp as int)
        } else {
            0
        })
    }

    /// The evaluation of a ply was put on the stack.
    pub open spec fn eval_pushed(&self, before: &Searcher, ply: int, eval: i32) -> bool {
        &&& *self == (Searcher { eval_stack: self.eval_stack, ..*before })
        &&& self.eval_stack@ == before.eval_stack@.update(ply, eval)
    }

    /// Smooths the evaluation of a ply and puts it on the stack.
    pub fn push_eval(&mut self, ply: usize, eval: i32, hash: u64) -> (r: i32)
        requires
            old(self).valid(),
            ply < MAX_PLY,
            -eval_bound(ply as int) + EVAL_DRIFT <= eval <= eval_bound(ply as int) - EVAL_DRIFT,
        ensures
            final(self).goes_on(old(self)),
            final(self).eval_pushed(old(self), ply as int, r),
            forall|i: int|
                0 <= i < MAX_PLY && i != ply ==> #[trigger] final(self).eval_stack@[i] == old(
                    self,
                ).eval_stack@[i],
            r == old(self).smoothed(ply as int, eval as int, hash),
            -961_000_000 <= r <= 961_000_000,
    {
        let mut e: i32 = eval;
        if ply > 0 {
            e += -self.stat_score_stack[ply - 1] / 512;
        }
        if self.noise_amp > 0 {
            e += get_noise(self.seed, hash, self.noise_amp);
        }
        self.eval_stack[ply] = e;
        proof {
            reveal(Searcher::bearings);
        }
        e
    }

    /// Whether the position is better for the side to move than two plies
    /// before; in check and near the root it counts as such.
    pub open spec fn improves(&self, ply: int, eval: int, in_check: bool) -> bool {
        ply >= 2 && !in_check ==> eval > self.eval_stack@[ply - 2]
    }

    pub fn is_improving(&self, ply: usize, eval: i32, in_check: bool) -> (r: bool)
        requires
            self.valid(),
            ply < MAX_PLY,
        ensures
            r == self.improves(ply as int, eval as int, in_check),
    {
        if ply >= 2 && !in_check {
            eval > self.eval_stack[ply - 2]
        } else {
            true
        }
    }

    /// Whether the opponent's last move made things worse for them.
    pub open spec fn opponent_worsens(&self, ply: int, eval: int, in_check: bool) -> bool {
        ply >= 1 && !in_check && eval > -self.eval_stack@[ply - 1]
    }

    pub fn is_opponent_worsening(&self, ply: usize, eval: i32, in_check: bool) -> (r: bool)
        requires
            self.valid(),
            ply < MAX_PLY,
        ensures
            r == self.opponent_worsens(ply as int, eval as int, in_check),
    {
        ply >= 1 && !in_check && eval > -self.eval_stack[ply - 1]
    }

    /// The evaluation of the ply before.
    pub fn last_eval(&self, ply: usize) -> (r: i32)
        requires
            self.valid(),
            0 < ply < MAX_PLY,
        ensures
            r == self.eval_stack@[ply - 1],
    {
        self.eval_stack[ply - 1]
    }

    /// It was noted whether a node is or was on a principal variation.
    pub open spec fn tt_pv_put(&self, before: &Searcher, ply: int, tt_pv: bool) -> bool {
        &&& *self == (Searcher { tt_pv_stack: self.tt_pv_stack, ..*before })
        &&& self.tt_pv_stack@ == before.tt_pv_stack@.update(ply, tt_pv)
    }

    /// Notes whether a node is or was on a principal variation.
    pub fn set_tt_pv(&mut self, ply: usize, tt_pv: bool)
        requires
            old(self).valid(),
            ply < MAX_PLY,
        ensures
            final(self).goes_on(old(self)),
            final(self).tt_pv_put(old(self), ply as int, tt_pv),
    {
        self.tt_pv_stack[ply] = tt_pv;
        proof {
            reveal(Searcher::bearings);
        }
    }

    pub fn parent_is_tt_pv(&self, ply: usize) -> (r: bool)
        requires
            self.valid(),
            ply < MAX_PLY,
        ensures
            r == (ply > 0 && self.tt_pv_stack@[ply - 1]),
    {
        ply > 0 && self.tt_pv_stack[ply - 1]
    }

    /// The record of a ply.
    pub open spec fn record_of(&self, ply: int) -> PlyRecord {
        PlyRecord {
            squares: self.prev_move_stack@[ply],
            made: self.move_history@[ply],
            piece: self.moved_piece_history@[ply],
            in_check: self.in_check_history@[ply],
            capture: self.capture_history_stack@[ply],
        }
    }

    /// The record of a move about to be searched.
    pub open spec fn record_for(m: Move, in_check: bool, capture: bool) -> PlyRecord {
        PlyRecord {
            squares: (
                square_slot(m.from.x, m.from.y) as usize,
                square_slot(m.to.x, m.to.y) as usize,
            ),
            made: Some(m),
            piece: m.piece.piece_type.index_spec() as u8,
            in_check,
            capture,
        }
    }

    pub fn record(&self, ply: usize) -> (r: PlyRecord)
        requires
            self.valid(),
            ply < MAX_PLY,
        ensures
            r == self.record_of(ply as int),
    {
        PlyRecord {
            squares: self.prev_move_stack[ply],
            made: self.move_history[ply],
            piece: self.moved_piece_history[ply],
            in_check: self.in_check_history[ply],
            capture: self.capture_history_stack[ply],
        }
    }

    pub fn new_record(m: &Move, in_check: bool, capture: bool) -> (r: PlyRecord)
        ensures
            r == Self::record_for(*m, in_check, capture),
    {
        PlyRecord {
            squares: (hash_move_from(m), hash_move_dest(m)),
            made: Some(*m),
            piece: m.piece.piece_type.index() as u8,
            in_check,
            capture,
        }
    }

    /// A record was put on the stacks.
    pub open spec fn record_put(&self, before: &Searcher, ply: int, record: PlyRecord) -> bool {
        &&& *self == (Searcher {
            prev_move_stack: self.prev_move_stack,
            move_history: self.move_history,
            moved_piece_history: self.moved_piece_history,
            in_check_history: self.in_check_history,
            capture_history_stack: self.capture_history_stack,
            ..*before
        })
        &&& self.prev_move_stack@ == before.prev_move_stack@.update(ply, record.squares)
        &&& self.move_history@ == before.move_history@.update(ply, record.made)
        &&& self.moved_piece_history@ == before.moved_piece_history@.update(ply, record.piece)
        &&& self.in_check_history@ == before.in_check_history@.update(ply, record.in_check)
        &&& self.capture_history_stack@ == before.capture_history_stack@.update(
            ply,
            record.capture,
        )
    }

    /// Puts a record on the stacks.
    pub fn put_record(&mut self, ply: usize, record: &PlyRecord)
        requires
            old(self).valid(),
            ply < MAX_PLY,
        ensures
            final(self).valid(),
            final(self).record_put(old(self), ply as int, *record),
            final(self).bearings() == old(self).bearings().at_ply(ply as int, *record),
            final(self).hot == old(self).hot,
    {
        self.prev_move_stack[ply] = record.squares;
        self.move_history[ply] = record.made;
        self.moved_piece_history[ply] = record.piece;
        self.in_check_history[ply] = record.in_check;
        self.capture_history_stack[ply] = record.capture;
        proof {
            reveal(Searcher::bearings);
        }
    }

    /// A root move was noted as the one before the next ply.
    pub open spec fn root_move_noted(&self, before: &Searcher, m: Move) -> bool {
        &&& *self == (Searcher { prev_move_stack: self.prev_move_stack, ..*before })
        &&& self.prev_move_stack@ == before.prev_move_stack@.update(
            0,
            (square_slot(m.from.x, m.from.y) as usize, square_slot(m.to.x, m.to.y) as usize),
        )
    }

    /// Notes a root move as the one before the next ply. Gives what was noted
    /// there before.
    pub fn note_root_move(&mut self, m: &Move) -> (r: (usize, usize))
        requires
            old(self).valid(),
        ensures
            final(self).valid(),
            final(self).root_move_noted(old(self), *m),
            r == old(self).prev_move_stack@[0],
            final(self).bearings() == (Bearings {
                squares: final(self).prev_move_stack@,
                ..old(self).bearings()
            }),
    {
        let before = self.prev_move_stack[0];
        self.prev_move_stack[0] = (hash_move_from(m), hash_move_dest(m));
        proof {
            reveal(Searcher::bearings);
        }
        before
    }

    /// What was noted as the move before the next ply was put back.
    pub open spec fn root_move_forgotten(&self, before: &Searcher, noted: (usize, usize)) -> bool {
        &&& *self == (Searcher { prev_move_stack: self.prev_move_stack, ..*before })
        &&& self.prev_move_stack@ == before.prev_move_stack@.update(0, noted)
    }

    /// Takes a root move back that was noted on a state of the search.
    pub(crate) fn forget_root_move(
        &mut self,
        squares: (usize, usize),
        Ghost(before): Ghost<Searcher>,
        Ghost(m): Ghost<Move>,
        Ghost(noted): Ghost<Searcher>,
    )
        requires
            old(self).goes_on(&noted),
            before.valid(),
            noted.root_move_noted(&before, m),
            squares == before.prev_move_stack@[0],
        ensures
            final(self).goes_on(&before),
            final(self).root_move_forgotten(old(self), squares),
    {
        self.prev_move_stack[0] = squares;
        proof {
            reveal(Searcher::bearings);
            assert(old(self).bearings() == noted.bearings());
            assert(old(self).prev_move_stack@ == noted.prev_move_stack@);
            assert(self.prev_move_stack@ =~= before.prev_move_stack@);
        }
    }

    /// A record and the bearings tell the same of a ply.
    pub proof fn lemma_record(&self, ply: int)
        requires
            self.valid(),
            0 <= ply < MAX_PLY,
        ensures
            self.bearings().at_ply(ply, self.record_of(ply)) == self.bearings(),
            self.bearings().squares.len() == MAX_PLY,
            self.bearings().moves.len() == MAX_PLY,
            self.bearings().pieces.len() == MAX_PLY,
    {
        reveal(Searcher::bearings);
        let b = self.bearings();
        let c = b.at_ply(ply, self.record_of(ply));
        assert(c.squares =~= b.squares);
        assert(c.moves =~= b.moves);
        assert(c.pieces =~= b.pieces);
    }

    /// A move was put before the principal variation of the next ply, as that of a
    /// ply.
    pub open spec fn pv_put(&self, before: &Searcher, ply: int, m: Move) -> bool {
        &&& *self == (Searcher { pv_table: self.pv_table, pv_length: self.pv_length, ..*before })
        &&& self.pv_length@ == before.pv_length@.update(
            ply,
            (before.pv_length@[ply + 1] + 1) as usize,
        )
        &&& self.pv_line(ply) == seq![Some(m)] + before.pv_line(ply + 1)
        &&& forall|i: int|
            0 <= i < MAX_PLY * MAX_PLY && !(ply * MAX_PLY <= i <= ply * MAX_PLY
                + before.pv_length@[ply + 1]) ==> #[trigger] self.pv_table@[i]
                == before.pv_table@[i]
    }

    /// Puts a move before the principal variation of the next ply.
    pub fn update_pv(&mut self, ply: usize, m: &Move)
        requires
            old(self).valid(),
            ply + 1 < MAX_PLY,
        ensures
            final(self).goes_on(old(self)),
            final(self).pv_put(old(self), ply as int, *m),
            final(self).pv_table@[ply * MAX_PLY] == Some(*m),
            final(self).pv_length@[ply as int] == old(self).pv_length@[ply + 1] + 1,
            final(self).keeps_pv_before(old(self), ply as int),
            forall|q: int|
                0 <= q < MAX_PLY && q != ply ==> #[trigger] final(self).pv_line(q) == old(
                    self,
                ).pv_line(q),
    {
        let base: usize = ply * MAX_PLY;
        let child_base: usize = (ply + 1) * MAX_PLY;
        let child_len: usize = self.pv_length[ply + 1];
        self.pv_table[base] = Some(*m);
        let mut j: usize = 0;
        while j < child_len
            invariant
                j <= child_len,
                ply + 1 < MAX_PLY,
                base == ply * MAX_PLY,
                child_base == (ply + 1) * MAX_PLY,
                old(self).wf(),
                child_len == old(self).pv_length@[ply + 1],
                child_len <= MAX_PLY - ply - 1,
                *self == (Searcher { pv_table: self.pv_table, ..*old(self) }),
                self.pv_table@.len() == MAX_PLY * MAX_PLY,
                self.pv_table@[base as int] == Some(*m),
                forall|k: int|
                    0 <= k < j ==> #[trigger] self.pv_table@[base + 1 + k] == old(
                        self,
                    ).pv_table@[child_base + k],
                forall|i: int|
                    0 <= i < MAX_PLY * MAX_PLY && !(base <= i <= base + j)
                        ==> #[trigger] self.pv_table@[i] == old(self).pv_table@[i],
            decreases child_len - j,
        {
            let next = self.pv_table[child_base + j];
            self.pv_table[base + 1 + j] = next;
            j += 1;
        }
        self.pv_length[ply] = child_len + 1;
        proof {
            reveal(Searcher::bearings);
            let line = self.pv_line(ply as int);
            let expected = seq![Some(*m)] + old(self).pv_line(ply + 1);
            assert forall|k: int| 0 <= k < expected.len() implies line[k] == expected[k] by {
                if k > 0 {
                    assert(self.pv_table@[base + 1 + (k - 1)] == old(self).pv_table@[child_base + (k
                        - 1)]);
                }
            }
            assert(line =~= expected);
            assert forall|q: int| 0 <= q < MAX_PLY && q != ply implies #[trigger] self.pv_line(q)
                == old(self).pv_line(q) by {
                assert(self.pv_length@[q] == old(self).pv_length@[q]);
                assert(self.pv_line(q) =~= old(self).pv_line(q));
            }
        }
    }

    /// The principal variation of a ply was forgotten.
    pub open spec fn pv_cleared(&self, before: &Searcher, ply: int) -> bool {
        &&& *self == (Searcher { pv_length: self.pv_length, ..*before })
        &&& self.pv_length@ == before.pv_length@.update(ply, 0)
    }

    /// Forgets the principal variation of a ply.
    pub fn clear_pv(&mut self, ply: usize)
        requires
            old(self).valid(),
            ply < MAX_PLY,
        ensures
            final(self).goes_on(old(self)),
            final(self).pv_cleared(old(self), ply as int),
            final(self).pv_length@[ply as int] == 0,
    {
        self.pv_length[ply] = 0;
        proof {
            reveal(Searcher::bearings);
        }
    }

    /// A move was made the whole principal variation.
    pub open spec fn pv_restarted(&self, before: &Searcher, m: Move) -> bool {
        &&& *self == (Searcher { pv_table: self.pv_table, pv_length: self.pv_length, ..*before })
        &&& self.pv_table@ == before.pv_table@.update(0, Some(m))
        &&& self.pv_length@ == before.pv_length@.update(0, 1)
    }

    /// Makes a move the whole principal variation.
    pub fn set_root_pv(&mut self, m: &Move)
        requires
            old(self).valid(),
        ensures
            final(self).goes_on(old(self)),
            final(self).pv_restarted(old(self), *m),
            final(self).pv_line(0) == seq![Some(*m)],
    {
        self.pv_table[0] = Some(*m);
        self.pv_length[0] = 1;
        proof {
            reveal(Searcher::bearings);
            assert(self.pv_line(0) =~= seq![Some(*m)]);
        }
    }

    /// Notes the nodes spent on the first root move.
    pub fn set_best_move_nodes(&mut self, nodes: u64)
        requires
            old(self).valid(),
        ensures
            final(self).valid(),
            *final(self) == (Searcher {
                hot: SearcherHot { best_move_nodes: nodes, ..old(self).hot },
                ..*old(self)
            }),
            final(self).bearings() == (Bearings { best_move_nodes: nodes, ..old(self).bearings() }),
    {
        self.hot.best_move_nodes = nodes;
        proof {
            reveal(Searcher::bearings);
        }
    }

    /// A later state of the same search, between nodes.
    pub open spec fn goes_on_between(&self, before: &Searcher) -> bool {
        &&& self.valid()
        &&& self.bearings().settings() == before.bearings().settings()
        &&& self.hot.nodes >= before.hot.nodes
    }

    /// An iteration was begun: no stop, no depth reached and no principal
    /// variation.
    pub open spec fn iteration_begun(&self, before: &Searcher) -> bool {
        &&& *self == (Searcher {
            hot: SearcherHot { stopped: false, seldepth: 0, ..before.hot },
            pv_length: self.pv_length,
            ..*before
        })
        &&& forall|i: int| 0 <= i < MAX_PLY ==> #[trigger] self.pv_length@[i] == 0
    }

    /// [`Searcher::reset_for_iteration`].
    pub fn begin_iteration(&mut self)
        requires
            old(self).valid(),
        ensures
            final(self).goes_on_between(old(self)),
            final(self).iteration_begun(old(self)),
    {
        self.reset_for_iteration();
        proof {
            reveal(Searcher::bearings);
        }
    }

    pub open spec fn with_stop(self) -> Searcher {
        Searcher { hot: SearcherHot { stopped: true, ..self.hot }, ..self }
    }

    pub fn request_stop(&mut self)
        requires
            old(self).valid(),
        ensures
            final(self).goes_on_between(old(self)),
            *final(self) == old(self).with_stop(),
    {
        self.hot.stopped = true;
        proof {
            reveal(Searcher::bearings);
        }
    }

    /// The searcher, once it may be stopped for time.
    pub open spec fn with_time_stops(self) -> Searcher {
        Searcher { hot: SearcherHot { min_depth_required: 0, ..self.hot }, ..self }
    }

    /// From now on the search may be stopped for time.
    pub fn allow_time_stops(&mut self)
        requires
            old(self).valid(),
        ensures
            final(self).goes_on_between(old(self)),
            *final(self) == old(self).with_time_stops(),
    {
        self.hot.min_depth_required = 0;
        proof {
            reveal(Searcher::bearings);
        }
    }

    /// The searcher with the best move of an iteration; with its score and depth
    /// only where the iteration was completed.
    pub open spec fn with_best(self, m: Move, score: i32, depth: usize, changed: bool) -> Searcher {
        Searcher {
            best_move_root: Some(m),
            prev_score: (if self.hot.stopped {
                self.prev_score
            } else {
                score
            }),
            completed_depth: (if self.hot.stopped {
                self.completed_depth
            } else {
                depth
            }),
            hot: (if changed {
                SearcherHot {
                    best_move_changes: (if self.hot.best_move_changes == u64::MAX {
                        u64::MAX
                    } else {
                        (self.hot.best_move_changes + 1) as u64
                    }),
                    last_best_move_depth: depth,
                    ..self.hot
                }
            } else {
                self.hot
            }),
            ..self
        }
    }

    /// Takes over the best move of an iteration; its score and depth only
    /// where the iteration was completed.
    pub fn note_best(&mut self, m: &Move, score: i32, depth: usize, changed: bool)
        requires
            old(self).valid(),
            -INFINITY <= score <= INFINITY,
        ensures
            final(self).goes_on_between(old(self)),
            *final(self) == old(self).with_best(*m, score, depth, changed),
    {
        self.best_move_root = Some(*m);
        if !self.hot.stopped {
            self.prev_score = score;
            self.completed_depth = depth;
        }
        if changed {
            self.hot.best_move_changes = self.hot.best_move_changes.saturating_add(1);
            self.hot.last_best_move_depth = depth;
        }
        proof {
            reveal(Searcher::bearings);
        }
    }

    pub fn set_prev_score(&mut self, score: i32)
        requires
            old(self).valid(),
            -INFINITY <= score <= INFINITY,
        ensures
            final(self).goes_on_between(old(self)),
            *final(self) == (Searcher { prev_score: score, ..*old(self) }),
    {
        self.prev_score = score;
        proof {
            reveal(Searcher::bearings);
        }
    }

    /// Counts the changes of the best move from zero again.
    pub fn forget_changes(&mut self)
        requires
            old(self).valid(),
        ensures
            final(self).goes_on_between(old(self)),
            *final(self) == (Searcher {
                hot: SearcherHot { best_move_changes: 0, ..old(self).hot },
                ..*old(self)
            }),
    {
        self.hot.best_move_changes = 0;
        proof {
            reveal(Searcher::bearings);
        }
    }

    /// [`Searcher::record_iteration`].
    pub fn settle_iteration(&mut self, best_score: i32)
        requires
            old(self).valid(),
            -INFINITY <= best_score <= INFINITY,
        ensures
            final(self).goes_on_between(old(self)),
            final(self).iteration_recorded(old(self), best_score),
    {
        self.record_iteration(best_score);
        proof {
            reveal(Searcher::bearings);
        }
    }

    /// The score of the last completed iteration.
    pub fn last_score(&self) -> (r: i32)
        requires
            self.valid(),
        ensures
            r == self.prev_score,
            -INFINITY <= r <= INFINITY,
    {
        self.prev_score
    }

    /// The first move of the principal variation.
    pub fn pv_head(&self) -> (r: Option<Move>)
        requires
            self.valid(),
        ensures
            r == self.pv_table@[0],
    {
        self.pv_table[0]
    }

    /// A cutoff was counted at a ply, and the history of the move that made it
    /// was noted.
    pub open spec fn cutoff_noted(
        &self,
        before: &Searcher,
        ply: int,
        m: Move,
        counts: bool,
    ) -> bool {
        &&& *self == (Searcher {
            cutoff_cnt: self.cutoff_cnt,
            stat_score_stack: self.stat_score_stack,
            ..*before
        })
        &&& self.cutoff_cnt@ == (if counts && before.cutoff_cnt@[ply] < 255 {
            before.cutoff_cnt@.update(ply, (before.cutoff_cnt@[ply] + 1) as u8)
        } else {
            before.cutoff_cnt@
        })
        &&& self.stat_score_stack@ == before.stat_score_stack@.update(
            ply,
            before.history@[m.piece.piece_type.index_spec()]@[square_slot(m.to.x, m.to.y)],
        )
    }

    /// Counts a cutoff at a ply and notes the history of the move that made it.
    pub fn note_cutoff(&mut self, ply: usize, m: &Move, counts: bool)
        requires
            old(self).valid(),
            ply < MAX_PLY,
        ensures
            final(self).goes_on(old(self)),
            final(self).cutoff_noted(old(self), ply as int, *m, counts),
    {
        if counts {
            self.cutoff_cnt[ply] = self.cutoff_cnt[ply].saturating_add(1);
        }
        let p: usize = m.piece.piece_type.index();
        self.stat_score_stack[ply] = self.history[p][hash_move_dest(m)];
        proof {
            reveal(Searcher::bearings);
            assert(self.cutoff_cnt@ =~= (if counts && old(self).cutoff_cnt@[ply as int] < 255 {
                old(self).cutoff_cnt@.update(
                    ply as int,
                    (old(self).cutoff_cnt@[ply as int] + 1) as u8,
                )
            } else {
                old(self).cutoff_cnt@
            }));
        }
    }
}

/// A search that goes on from one state to a second, and from there to a third,
/// goes on from the first to the third.
pub proof fn searches_chain(a: Searcher, b: Searcher, c: Searcher)
    requires
        b.goes_on(&a),
        c.goes_on(&b),
    ensures
        c.goes_on(&a),
{
}

/// The path of moves to a node is as it was.
#[verifier::opaque]
pub open spec fn same_path(a: Searcher, b: Searcher) -> bool {
    &&& b.prev_move_stack@ == a.prev_move_stack@
    &&& b.move_history@ == a.move_history@
    &&& b.moved_piece_history@ == a.moved_piece_history@
}

/// A search that goes on at a node keeps the path to it.
pub broadcast proof fn searches_keep_the_path(a: Searcher, b: Searcher)
    requires
        b.goes_on(&a),
    ensures
        #[trigger] same_path(a, b),
{
    reveal(same_path);
    reveal(Searcher::bearings);
    assert(b.bearings().squares == a.bearings().squares);
    assert(b.bearings().moves == a.bearings().moves);
    assert(b.bearings().pieces == a.bearings().pieces);
}

/// What stays the same through a whole search.
pub struct Settings {
    pub noise_amp: i32,
    pub seed: u64,
    pub rng: Prng,
    pub silent: bool,
    pub thread_id: usize,
    pub corrhist_mode: CorrHistMode,
    pub move_rule_limit: i32,
    pub excluded: Seq<(i64, i64, i64, i64)>,
    pub time_limit_ms: u128,
    pub optimum_time_ms: u128,
    pub maximum_time_ms: u128,
    pub is_soft_limit: bool,
}

impl Bearings {
    /// Time does not stop the search: there is no time limit, or the first depth is
    /// not complete.
    pub open spec fn is_untimed(self) -> bool {
        self.time_limit_ms == u128::MAX || self.min_depth_required > 0
    }

    pub open spec fn settings(self) -> Settings {
        Settings {
            noise_amp: self.noise_amp,
            seed: self.seed,
            rng: self.rng,
            silent: self.silent,
            thread_id: self.thread_id,
            corrhist_mode: self.corrhist_mode,
            move_rule_limit: self.move_rule_limit,
            excluded: self.excluded,
            time_limit_ms: self.time_limit_ms,
            optimum_time_ms: self.optimum_time_ms,
            maximum_time_ms: self.maximum_time_ms,
            is_soft_limit: self.is_soft_limit,
        }
    }

    /// Of two records of one ply, the later one counts.
    pub proof fn lemma_overwritten(self, ply: int, first: PlyRecord, second: PlyRecord)
        requires
            0 <= ply < self.squares.len(),
            0 <= ply < self.moves.len(),
            0 <= ply < self.pieces.len(),
        ensures
            self.at_ply(ply, first).at_ply(ply, second) == self.at_ply(ply, second),
    {
        let a = self.at_ply(ply, first).at_ply(ply, second);
        let b = self.at_ply(ply, second);
        assert(a.squares =~= b.squares);
        assert(a.moves =~= b.moves);
        assert(a.pieces =~= b.pieces);
    }

    /// The bearings with another record of one ply.
    pub open spec fn at_ply(self, ply: int, record: PlyRecord) -> Bearings {
        Bearings {
            squares: self.squares.update(ply, record.squares),
            moves: self.moves.update(ply, record.made),
            pieces: self.pieces.update(ply, record.piece),
            ..self
        }
    }
}

} // verus!
