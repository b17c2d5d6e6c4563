//! What a search asks of the game that it searches.
use crate::arith::clamp;
use crate::board::{PieceType, PlayerColor};
use crate::game::GameState;
use crate::moves::{Move, MoveList};
use crate::search::decisions::bounded;
use crate::search::searcher::{ClockReading, Searcher};
use crate::search::steps::{lemma_back_steady, taken_back};
use crate::search::tt_defs::{TTProbeParams, TTProbeResult, TTStoreParams};
use crate::search::{PVLine, ProbeContext, StoreContext, INFINITY};
use vstd::prelude::*;

verus! {

/// A game with its rules, its move generation, its transposition table and its
/// clock. A search relies on nothing about the answers: whatever they are, it
/// stays within its tables and windows and comes to an end.
///
/// Each method that changes the game has a relation beside it, which names what
/// the method does and claims nothing of it. A contract says with these which
/// steps led from one state of the game to another.
pub trait SearchHost: Sized {
    /// What takes a move back.
    type Undo;

    /// A generator of the moves of one node, in stages.
    type Generator;

    fn game(&self) -> &GameState;

    /// Another game in the same position.
    fn fork(&self) -> Self;

    open spec fn prepares(&self, later: &Self) -> bool {
        true
    }

    /// Brings counts and hashes in line with the board before a search.
    fn prepare(&mut self)
        ensures
            old(self).prepares(final(self)),
    ;

    open spec fn makes(&self, m: Move, undo: Self::Undo, later: &Self) -> bool {
        true
    }

    fn make_move(&mut self, m: &Move) -> (undo: Self::Undo)
        ensures
            old(self).makes(*m, undo, final(self)),
    ;

    open spec fn unmakes(&self, m: Move, undo: Self::Undo, later: &Self) -> bool {
        true
    }

    fn undo_move(&mut self, m: &Move, undo: Self::Undo)
        ensures
            old(self).unmakes(*m, undo, final(self)),
    ;

    open spec fn passes(&self, later: &Self) -> bool {
        true
    }

    fn make_null_move(&mut self)
        ensures
            old(self).passes(final(self)),
    ;

    open spec fn unpasses(&self, later: &Self) -> bool {
        true
    }

    /// Takes the null move back, and restores what it took of en passant.
    fn unmake_null_move(&mut self)
        ensures
            old(self).unpasses(final(self)),
    ;

    /// The moves of the side to move; some may leave a royal piece in check.
    fn get_legal_moves(&self) -> MoveList;

    /// Whether the last move left a royal piece in check.
    fn is_move_illegal(&self) -> bool;

    /// Whether a move is legal, where that can be told before it is made.
    fn is_legal_fast(&self, m: &Move, in_check: bool) -> Option<bool>;

    fn is_in_check(&self) -> bool;

    /// Whether the game is lost by checkmate.
    fn must_escape_check(&self) -> bool;

    fn has_pieces(&self, color: PlayerColor) -> bool;

    fn has_non_pawn_material(&self, color: PlayerColor) -> bool;

    fn has_lost_by_royal_capture(&self) -> bool;

    /// Whether a move at hand repeats a position.
    fn upcoming_repetition(&self, ply: usize) -> bool;

    fn is_repetition(&self, ply: usize) -> bool;

    fn is_draw(&self, ply: usize, in_check: bool) -> bool;

    fn get_evasion_moves(&self) -> MoveList;

    fn get_quiescence_captures(&self) -> MoveList;

    fn move_gives_check(&self, m: &Move) -> bool;

    fn get_piece_value(&self, piece_type: PieceType, color: PlayerColor) -> i32;

    fn static_exchange_eval(&self, m: &Move) -> i32;

    open spec fn evaluates(&self, answer: i32, later: &Self) -> bool {
        true
    }

    /// The static evaluation for the side to move.
    fn evaluate(&mut self) -> (answer: i32)
        ensures
            old(self).evaluates(answer, final(self)),
    ;

    /// The reduction of a late move by depth and number of the move.
    fn get_lmr(&self, depth: usize, moves: usize) -> i32;

    /// How early a capture is tried in quiescence: the greater, the earlier.
    fn capture_rank(&self, m: &Move) -> i64;

    /// How early a move is tried at the root: the greater, the earlier.
    fn root_rank(&self, searcher: &Searcher, m: &Move, tt_move: &Option<Move>) -> i64;

    open spec fn starts_moves(
        &self,
        searcher: Searcher,
        tt_move: Option<Move>,
        ply: usize,
        depth: usize,
        moves: Self::Generator,
        later: &Self,
    ) -> bool {
        true
    }

    fn start_moves(
        &mut self,
        searcher: &Searcher,
        tt_move: Option<Move>,
        ply: usize,
        depth: usize,
    ) -> (moves: Self::Generator)
        ensures
            old(self).starts_moves(*searcher, tt_move, ply, depth, moves, final(self)),
    ;

    open spec fn starts_probcut(
        &self,
        searcher: Searcher,
        tt_move: Option<Move>,
        threshold: i32,
        moves: Self::Generator,
        later: &Self,
    ) -> bool {
        true
    }

    /// Captures that win at least `threshold` in exchanges.
    fn start_probcut(
        &mut self,
        searcher: &Searcher,
        tt_move: Option<Move>,
        threshold: i32,
    ) -> (moves: Self::Generator)
        ensures
            old(self).starts_probcut(*searcher, tt_move, threshold, moves, final(self)),
    ;

    open spec fn offers(
        &self,
        searcher: Searcher,
        moves: Self::Generator,
        answer: Option<Move>,
        left: Self::Generator,
        later: &Self,
    ) -> bool {
        true
    }

    fn next_move(&mut self, searcher: &Searcher, moves: &mut Self::Generator) -> (answer: Option<
        Move,
    >)
        ensures
            old(self).offers(*searcher, *old(moves), answer, *final(moves), final(self)),
    ;

    open spec fn drops_quiets(
        &self,
        moves: Self::Generator,
        left: Self::Generator,
        later: &Self,
    ) -> bool {
        true
    }

    /// Leaves the remaining quiet moves out.
    fn skip_quiet_moves(&mut self, moves: &mut Self::Generator)
        ensures
            old(self).drops_quiets(*old(moves), *final(moves), final(self)),
    ;

    /// Whether threads share a transposition table.
    fn uses_shared_tt(&self) -> bool;

    fn probe_shared(&self, params: &TTProbeParams) -> Option<TTProbeResult>;

    open spec fn stores_shared(&self, params: TTStoreParams, later: &Self) -> bool {
        true
    }

    fn store_shared(&mut self, params: &TTStoreParams)
        ensures
            old(self).stores_shared(*params, final(self)),
    ;

    fn probe_local(&self, params: &TTProbeParams) -> Option<TTProbeResult>;

    open spec fn stores_local(&self, params: TTStoreParams, later: &Self) -> bool {
        true
    }

    fn store_local(&mut self, params: &TTStoreParams)
        ensures
            old(self).stores_local(*params, final(self)),
    ;

    /// The best move that a table holds for a position.
    fn probe_move(&self, hash: u64) -> Option<Move>;

    fn tt_capacity(&self) -> usize;

    fn tt_used_entries(&self) -> usize;

    fn tt_fill_permille(&self) -> u32;

    open spec fn clears_tt(&self, later: &Self) -> bool {
        true
    }

    fn clear_tt(&mut self)
        ensures
            old(self).clears_tt(final(self)),
    ;

    open spec fn starts_clock(&self, later: &Self) -> bool {
        true
    }

    /// Starts the clock of a search.
    fn start_clock(&mut self)
        ensures
            old(self).starts_clock(final(self)),
    ;

    open spec fn starts_iteration(&self, later: &Self) -> bool {
        true
    }

    /// Starts the clock of an iteration.
    fn start_iteration(&mut self)
        ensures
            old(self).starts_iteration(final(self)),
    ;

    fn read_clock(&self) -> ClockReading;

    open spec fn revises_budget(
        &self,
        searcher: Searcher,
        depth: usize,
        best_score: i32,
        legal_moves: usize,
        used_up: bool,
        later: &Self,
    ) -> bool {
        true
    }

    /// Works out the budget of the move anew after an iteration. Whether it is
    /// used up.
    fn revise_budget(
        &mut self,
        searcher: &Searcher,
        depth: usize,
        best_score: i32,
        legal_moves: usize,
    ) -> (used_up: bool)
        ensures
            old(self).revises_budget(
                *searcher,
                depth,
                best_score,
                legal_moves,
                used_up,
                final(self),
            ),
    ;

    open spec fn sets_budget(&self, budget_ms: u128, later: &Self) -> bool {
        true
    }

    /// Sets the budget of the move.
    fn set_budget(&mut self, budget_ms: u128)
        ensures
            old(self).sets_budget(budget_ms, final(self)),
    ;

    /// Whether all threads were told to stop.
    fn is_stop_requested(&self) -> bool;

    open spec fn reports(&self, searcher: Searcher, depth: usize, score: i32, later: &Self) -> bool {
        true
    }

    /// Tells of a completed iteration.
    fn report(&mut self, searcher: &Searcher, depth: usize, score: i32)
        ensures
            old(self).reports(*searcher, depth, score, final(self)),
    ;

    open spec fn reports_lines(
        &self,
        searcher: Searcher,
        depth: usize,
        lines: Vec<PVLine>,
        later: &Self,
    ) -> bool {
        true
    }

    /// Tells of the best lines of an iteration.
    fn report_lines(&mut self, searcher: &Searcher, depth: usize, lines: &Vec<PVLine>)
        ensures
            old(self).reports_lines(*searcher, depth, *lines, final(self)),
    ;

    /// A random number between zero and `limit`, made of random bits.
    fn scale_draw(&self, bits: u64, limit: i32) -> i32;
}

impl ProbeContext {
    /// What a table is asked.
    pub open spec fn asked(self) -> TTProbeParams {
        TTProbeParams {
            hash: self.hash,
            alpha: self.alpha,
            beta: self.beta,
            depth: self.depth,
            ply: self.ply,
            rule50_count: self.rule50_count,
            rule_limit: self.rule_limit,
        }
    }

    pub fn params(&self) -> (r: TTProbeParams)
        ensures
            r == self.asked(),
    {
        TTProbeParams {
            hash: self.hash,
            alpha: self.alpha,
            beta: self.beta,
            depth: self.depth,
            ply: self.ply,
            rule50_count: self.rule50_count,
            rule_limit: self.rule_limit,
        }
    }
}

impl StoreContext {
    /// What a table is told.
    pub open spec fn told(self) -> TTStoreParams {
        TTStoreParams {
            hash: self.hash,
            depth: self.depth,
            flag: self.flag,
            score: self.score,
            static_eval: self.static_eval,
            is_pv: self.is_pv,
            best_move: self.best_move,
            ply: self.ply,
        }
    }

    pub fn params(&self) -> (r: TTStoreParams)
        ensures
            r == self.told(),
    {
        TTStoreParams {
            hash: self.hash,
            depth: self.depth,
            flag: self.flag,
            score: self.score,
            static_eval: self.static_eval,
            is_pv: self.is_pv,
            best_move: self.best_move,
            ply: self.ply,
        }
    }
}

/// A probe may find this: in the table that threads share, where they share
/// one, else in the thread's own.
pub open spec fn probed<H: SearchHost>(
    host: &H,
    ctx: ProbeContext,
    found: Option<TTProbeResult>,
) -> bool {
    exists|shared: bool| #[trigger]
        call_ensures(H::uses_shared_tt, (host,), shared) && if shared {
            call_ensures(H::probe_shared, (host, &ctx.asked()), found)
        } else {
            call_ensures(H::probe_local, (host, &ctx.asked()), found)
        }
}

/// Probes the table that threads share, where they share one, else the
/// thread's own.
pub fn probe_tt_with_shared<H: SearchHost>(host: &H, ctx: &ProbeContext) -> (r: Option<
    TTProbeResult,
>)
    ensures
        probed(host, *ctx, r),
{
    let params = ctx.params();
    if host.uses_shared_tt() {
        host.probe_shared(&params)
    } else {
        host.probe_local(&params)
    }
}

/// The raw evaluation of a game, which stands at `later` after that: its answer,
/// brought between minus and plus infinity.
pub open spec fn raw_eval_of<H: SearchHost>(host: &H, raw: i32, later: &H) -> bool {
    exists|answer: i32| #[trigger]
        host.evaluates(answer, later) && raw == clamp(answer as int, -INFINITY, INFINITY as int)
}

/// The raw evaluation of the game.
pub fn raw_eval<H: SearchHost>(host: &mut H) -> (r: i32)
    ensures
        raw_eval_of(&*old(host), r, &*final(host)),
        -INFINITY <= r <= INFINITY,
        taken_back(*old(host), *final(host)),
{
    let ghost before = *host;
    let answer: i32 = host.evaluate();
    proof {
        assert(before.evaluates(answer, host));
        lemma_back_steady(before, *host);
    }
    bounded(answer)
}

/// The table was told of a node: the one that threads share, where they share
/// one, else the thread's own.
pub open spec fn table_told<H: SearchHost>(host: &H, ctx: StoreContext, later: &H) -> bool {
    exists|shared: bool| #[trigger]
        call_ensures(H::uses_shared_tt, (host,), shared) && if shared {
            host.stores_shared(ctx.told(), later)
        } else {
            host.stores_local(ctx.told(), later)
        }
}

/// Stores into the table that threads share, where they share one, else into
/// the thread's own.
pub fn store_tt_with_shared<H: SearchHost>(host: &mut H, ctx: &StoreContext)
    ensures
        table_told(&*old(host), *ctx, &*final(host)),
        taken_back(*old(host), *final(host)),
{
    let ghost before = *host;
    let params = ctx.params();
    if host.uses_shared_tt() {
        host.store_shared(&params);
        assert(before.stores_shared(params, host));
    } else {
        host.store_local(&params);
        assert(before.stores_local(params, host));
    }
    proof {
        lemma_back_steady(before, *host);
    }
}

} // verus!
