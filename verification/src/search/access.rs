//! What a node reads from the tables and writes to them.
use crate::board::PieceType;
use crate::game::GameState;
use crate::moves::Move;
use crate::search::decisions::DEPTH_LIMIT;
use crate::search::ordering::{hash_move_dest, square_slot};
use crate::search::searcher::{
    pawn_history_index, pawn_slot, Searcher, CAPTURE_HISTORY_LIMIT, TT_MOVE_HISTORY_LIMIT,
};
use crate::search::{INFINITY, MATE_SCORE, MAX_PLY};
use crate::arith::{clamp, max, max_i32};
use vstd::prelude::*;

verus! {

impl Searcher {
    /// The history of a move's piece and destination.
    pub fn history_of(&self, m: &Move) -> (r: i32)
        requires
            self.valid(),
        ensures
            r == self.history@[m.piece.piece_type.index_spec()]@[square_slot(m.to.x, m.to.y)],
            -16384 <= r <= 16384,
    {
        proof {
            self.lemma_valid();
        }
        let p: usize = m.piece.piece_type.index();
        self.history[p][hash_move_dest(m)]
    }

    /// The history of a move under a pawn structure.
    pub fn pawn_history_of(&self, pawn_hash: u64, m: &Move) -> (r: i32)
        requires
            self.valid(),
        ensures
            r == self.pawn_history@[pawn_slot(
                pawn_hash,
                m.piece.piece_type.index_spec(),
                square_slot(m.to.x, m.to.y),
            )],
            -16384 <= r <= 16384,
    {
        proof {
            self.lemma_valid();
        }
        let p: usize = m.piece.piece_type.index();
        self.pawn_history[pawn_history_index(pawn_hash, p, hash_move_dest(m))]
    }

    /// The history of one kind of piece capturing another.
    pub fn capture_history_of(&self, piece: PieceType, captured: PieceType) -> (r: i32)
        requires
            self.valid(),
        ensures
            r == self.capture_history@[piece.index_spec()]@[captured.index_spec()],
            -CAPTURE_HISTORY_LIMIT <= r <= CAPTURE_HISTORY_LIMIT,
    {
        proof {
            self.lemma_valid();
        }
        self.capture_history[piece.index()][captured.index()]
    }

    /// How often moves at a ply have failed high.
    pub fn cutoffs_at(&self, ply: usize) -> (r: u8)
        requires
            self.valid(),
            ply < MAX_PLY,
        ensures
            r == self.cutoff_cnt@[ply as int],
    {
        proof {
            self.lemma_valid();
        }
        self.cutoff_cnt[ply]
    }

    /// How reliable table moves are.
    pub fn tt_reliability_now(&self) -> (r: i32)
        requires
            self.valid(),
        ensures
            r == self.tt_move_history,
            -TT_MOVE_HISTORY_LIMIT <= r <= TT_MOVE_HISTORY_LIMIT,
    {
        proof {
            self.lemma_valid();
        }
        self.tt_move_history
    }

    /// A raw evaluation with the correction for the path applied, short of mate
    /// scores.
    pub open spec fn corrected(&self, game: GameState, raw_eval: int, ply: int) -> int {
        clamp(
            raw_eval + self.correction(game, ply, self.last_move_index(ply)),
            -MATE_SCORE + 1,
            MATE_SCORE - 1,
        )
    }

    /// [`Searcher::adjusted_eval`] with the last move of the path.
    pub fn corrected_eval(&self, game: &GameState, raw_eval: i32, ply: usize) -> (r: i32)
        requires
            self.valid(),
            ply <= MAX_PLY,
        ensures
            r == self.corrected(*game, raw_eval as int, ply as int),
            -MATE_SCORE < r < MATE_SCORE,
    {
        proof {
            self.lemma_valid();
        }
        self.adjusted_eval(game, raw_eval, ply, self.prev_move_index(ply))
    }

    /// [`Searcher::is_shuffling`].
    pub(crate) fn shuffles_now(&self, game: &GameState, m: &Move, ply: usize) -> (r: bool)
        requires
            self.valid(),
            ply < MAX_PLY,
        ensures
            r == self.shuffles(*game, *m, ply as int),
    {
        proof {
            self.lemma_valid();
        }
        self.is_shuffling(game, m, ply)
    }

    /// Learns from a move that failed high: from a capture the capture history,
    /// from a quiet move all others.
    pub(crate) fn learn_from_cutoff(
        &mut self,
        game: &GameState,
        ply: usize,
        depth: usize,
        m: &Move,
        quiets: &Vec<Move>,
        in_check: bool,
        is_capture: bool,
        captured: Option<PieceType>,
    )
        requires
            old(self).valid(),
            ply < MAX_PLY,
            depth <= DEPTH_LIMIT,
        ensures
            final(self).goes_on(old(self)),
            final(self).same_pv(old(self)),
            !is_capture ==> final(self).cutoff_learned(
                old(self),
                ply as int,
                depth as int,
                *m,
                quiets@,
                game.pawn_hash,
                in_check,
            ),
            is_capture && captured is Some ==> final(self).capture_learned(
                old(self),
                m.piece.piece_type,
                captured->0,
                depth as int,
                true,
            ),
            is_capture && captured is None ==> *final(self) == *old(self),
    {
        proof {
            self.lemma_valid();
            reveal(Searcher::bearings);
        }
        if !is_capture {
            self.learn_quiet_cutoff(ply, depth, m, quiets, game.pawn_hash, in_check);
        } else if let Some(c) = captured {
            self.learn_capture(m.piece.piece_type, c, depth, true);
        }
        proof {
            self.lemma_valid();
        }
    }

    /// Learns from a capture that did not fail high.
    pub(crate) fn learn_from_miss(
        &mut self,
        depth: usize,
        m: &Move,
        captured: Option<PieceType>,
    )
        requires
            old(self).valid(),
            depth <= DEPTH_LIMIT,
        ensures
            final(self).goes_on(old(self)),
            final(self).same_pv(old(self)),
            captured is Some ==> final(self).capture_learned(
                old(self),
                m.piece.piece_type,
                captured->0,
                depth as int,
                false,
            ),
            captured is None ==> *final(self) == *old(self),
    {
        proof {
            self.lemma_valid();
            reveal(Searcher::bearings);
        }
        if let Some(c) = captured {
            self.learn_capture(m.piece.piece_type, c, depth, false);
        }
        proof {
            self.lemma_valid();
        }
    }

    /// What was learned from a move whose reduced search failed high.
    pub open spec fn research_learned(
        &self,
        before: &Searcher,
        ply: int,
        depth: int,
        m: Move,
    ) -> bool {
        &&& *self == (Searcher { cont_history: self.cont_history, ..*before })
        &&& self.cont_history@ == before.cont_adjusted(ply, m, 100 * depth, true)
    }

    /// Rewards a move whose reduced search failed high.
    pub(crate) fn learn_from_research(&mut self, ply: usize, depth: usize, m: &Move)
        requires
            old(self).valid(),
            ply < MAX_PLY,
            depth <= DEPTH_LIMIT,
        ensures
            final(self).goes_on(old(self)),
            final(self).same_pv(old(self)),
            final(self).research_learned(old(self), ply as int, depth as int, *m),
    {
        proof {
            self.lemma_valid();
            reveal(Searcher::bearings);
        }
        self.adjust_continuation(ply, m, 100 * depth as i32, true);
        proof {
            self.lemma_valid();
        }
    }

    /// What the reliability of table moves loses where other moves are as good.
    pub open spec fn multi_cut_penalty(depth: int) -> int {
        max(-400 - 100 * depth, -4000)
    }

    /// What was learned where other moves are as good as the table move.
    pub open spec fn multi_cut_learned(&self, before: &Searcher, depth: int) -> bool {
        *self == (Searcher {
            tt_move_history: Self::tt_reliability(
                before.tt_move_history as int,
                Self::multi_cut_penalty(depth),
            ) as i32,
            ..*before
        })
    }

    /// Learns that other moves are as good as the table move.
    pub(crate) fn learn_from_multi_cut(&mut self, depth: usize)
        requires
            old(self).valid(),
            depth <= DEPTH_LIMIT,
        ensures
            final(self).goes_on(old(self)),
            final(self).same_pv(old(self)),
            final(self).multi_cut_learned(old(self), depth as int),
    {
        proof {
            self.lemma_valid();
            reveal(Searcher::bearings);
        }
        self.learn_tt_move(max_i32(-400 - 100 * depth as i32, -4000));
        proof {
            self.lemma_valid();
        }
    }

    /// What was learned from a best move that was, or was not, the table's.
    pub open spec fn best_learned(&self, before: &Searcher, matched: bool) -> bool {
        *self == (Searcher {
            tt_move_history: Self::tt_reliability(
                before.tt_move_history as int,
                if matched {
                    809
                } else {
                    -865
                },
            ) as i32,
            ..*before
        })
    }

    /// Learns whether the table move was the best one.
    pub(crate) fn learn_from_best(&mut self, matched: bool)
        requires
            old(self).valid(),
        ensures
            final(self).goes_on(old(self)),
            final(self).same_pv(old(self)),
            final(self).best_learned(old(self), matched),
    {
        proof {
            self.lemma_valid();
            reveal(Searcher::bearings);
        }
        self.learn_tt_move(
            if matched {
                809
            } else {
                -865
            },
        );
        proof {
            self.lemma_valid();
        }
    }

    /// Rewards the opponent's move before a node that failed low.
    pub(crate) fn learn_from_fail_low(
        &mut self,
        game: &GameState,
        ply: usize,
        depth: usize,
        in_check: bool,
    )
        requires
            old(self).valid(),
            0 < ply < MAX_PLY,
            depth <= DEPTH_LIMIT,
        ensures
            final(self).goes_on(old(self)),
            final(self).same_pv(old(self)),
            final(self).fail_low_learned(
                old(self),
                ply as int,
                depth as int,
                game.pawn_hash,
                in_check,
            ),
    {
        proof {
            self.lemma_valid();
            reveal(Searcher::bearings);
        }
        self.learn_fail_low(ply, depth, game.pawn_hash, in_check);
        proof {
            self.lemma_valid();
        }
    }

    /// Learns from the difference between a result and the evaluation.
    pub(crate) fn learn_from_result(
        &mut self,
        game: &GameState,
        ply: usize,
        depth: usize,
        raw_eval: i32,
        score: i32,
    )
        requires
            old(self).valid(),
            ply < MAX_PLY,
            depth <= DEPTH_LIMIT,
            -INFINITY <= raw_eval <= INFINITY,
            -INFINITY <= score <= INFINITY,
        ensures
            final(self).goes_on(old(self)),
            final(self).same_pv(old(self)),
            final(self).correction_learned(
                old(self),
                *game,
                ply as int,
                depth as int,
                score - raw_eval,
                old(self).last_move_index(ply as int),
            ),
    {
        let idx: usize = self.prev_move_index(ply);
        proof {
            self.lemma_valid();
            reveal(Searcher::bearings);
        }
        self.update_correction_history(game, ply, depth, raw_eval, score, true, false, idx);
        proof {
            self.lemma_valid();
        }
    }
}

} // verus!
