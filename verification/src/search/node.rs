//! The search of one node: what closes it at once, what prunes it, its moves,
//! and what is learned from it.
use crate::arith::{max, max_i32, min};
use crate::board::{occupied, Piece, PieceType};
use crate::game::GameState;
use crate::moves::{Move, MoveList};
use crate::search::decisions::{
    apply_mate_distance, apply_repetition, capture_is_futile, capture_see_allowance,
    child_node_type, child_type, cutoff_by_tt, expected_quiet_depth, flag_of, futility_margin,
    hindsight, hindsight_depth, history_prunes, iir, iir_depth, is_capture_futile,
    is_pruned_by_history, is_score, judge_leaf, judge_singular, lmp_count, lmr, lmr_reduction,
    loses_capture, loses_quiet, mate_distance_window, may_prune_leaf, null_depth, null_move_applies,
    null_move_depth, probcut_applies, probcut_beta, probcut_bound, probcut_depth,
    probcut_search_depth, pv_depth, pv_floor, quiet_depth, quiet_futility, quiet_futility_value,
    quiet_loses, razors, read_tt, reduces, refine_eval, refined, research, research_depth,
    reverse_futility, rfp_applies, rfp_score, score_without_moves, should_razor, should_reduce,
    should_try_null_move, should_try_probcut, should_update_correction, singular_beta,
    singular_conditions, small_probcut, soften_fail_high, teaches, terminal_score, tt_cutoff,
    tt_flag, tt_reading, LeafVerdict, LmrInputs, Singular, TtView, Window,
};
use crate::search::host::{
    probe_tt_with_shared, probed, raw_eval, raw_eval_of, store_tt_with_shared, table_told,
    SearchHost,
};
use crate::search::ordering::square_slot;
use crate::search::quiescence::{found_illegal, is_taking, mates, quiescence, takes_piece};
use crate::search::results::{
    capture_judged, capture_settled, capture_step, capture_taken, captures_missed, captures_started,
    captures_tried, child_searched, child_taken, dropped_record, kept_searched, leaf_judged,
    lemma_child_taken, lemma_child_tested, lemma_last_ply, lemma_plain_move, lemma_tested_move,
    move_counted, move_made, move_passed, move_searched, move_step, move_taken, move_tested,
    moves_reached, moves_searched, moves_started, node_closed, nothing_found, null_answered,
    null_due, null_made, null_unmade, offered_at_most, open_searched, pruned, researched,
    results_in, score_taken, scores, searched, set_aside, singular_due, singular_limit,
    singular_tested, singular_verdict, taken_up, MovePoint,
};
use crate::search::searcher::{
    eval_bound, pawn_slot, ClockReading, Searcher, SearcherHot, EVAL_DRIFT,
};
use crate::search::stacks::{same_path, searches_keep_the_path, PlyRecord};
use crate::search::steps::{
    at, lemma_back_move, lemma_back_pass, lemma_back_same, lemma_back_steady, lemma_back_then,
    game_kept, offered, runs_out, taken_back, taking_back_keeps_the_game, Point, Stage,
};
use crate::search::tt_defs::{TTFlag, TTProbeResult};
use crate::search::{
    decisive, draw_value, is_decisive, is_loss, is_win, losing, mated_in, value_draw, winning,
    NegamaxContext, NodeType, ProbeContext, StoreContext, INFINITY, MATE_SCORE, MATE_VALUE, MAX_PLY,
    NO_VALUE, VALUE_DRAW,
};
use vstd::prelude::*;

verus! {

/// A node that the first tests left open.
#[derive(Clone, Copy)]
pub struct Node {
    pub ply: usize,
    pub depth: usize,
    pub alpha: i32,
    pub beta: i32,
    pub node_type: NodeType,
    pub allow_null: bool,
    pub excluded: Option<Move>,
    pub in_check: bool,
    pub hash: u64,
    pub tt: TtView,
    pub tt_capture: bool,
    pub tt_pv: bool,
    /// The evaluation without and with corrections.
    pub raw_eval: i32,
    pub static_eval: i32,
    /// The static evaluation, or the table's score as the better estimate.
    pub eval: i32,
    pub improving: bool,
    pub opponent_worsening: bool,
}

impl Node {
    pub open spec fn wf(&self) -> bool {
        &&& self.ply + 1 < MAX_PLY
        &&& 1 <= self.depth <= MAX_PLY
        &&& is_score(self.alpha as int)
        &&& is_score(self.beta as int)
        &&& self.alpha < self.beta
        &&& self.tt.wf()
        &&& -961_000_000 <= self.raw_eval <= 961_000_000
        &&& -961_000_000 <= self.static_eval <= 961_000_000
        &&& !self.in_check ==> is_score(self.raw_eval as int)
    }

    /// The corrected minus the raw evaluation.
    fn correction(&self) -> (r: i32)
        requires
            self.wf(),
        ensures
            r == self.static_eval - self.raw_eval,
            r > i32::MIN,
    {
        self.static_eval - self.raw_eval
    }

    fn is_pv(&self) -> (r: bool)
        ensures
            r == (self.node_type is PV),
    {
        self.node_type == NodeType::PV
    }

    fn is_cut(&self) -> (r: bool)
        ensures
            r == (self.node_type is Cut),
    {
        self.node_type == NodeType::Cut
    }
}

/// A window and whether the side to move is in check; or a score.
pub enum NodeEntry {
    Closed(i32),
    Open {
        alpha: i32,
        beta: i32,
        in_check: bool,
    },
}

/// What the game answers when a node is entered.
pub struct EntryAnswers {
    pub repeats: bool,
    pub in_check: bool,
    pub clock: ClockReading,
    pub draw: bool,
    pub lost: bool,
    /// The searcher once the node is counted.
    pub counted: Searcher,
}

/// The searcher after the time was checked at a node, and its depth noted where it
/// is on the principal variation.
pub open spec fn clocked(counted: Searcher, ctx: NegamaxContext, clock: ClockReading) -> Searcher {
    let hot = counted.hot.polled(clock);
    Searcher {
        hot: SearcherHot {
            seldepth: (if ctx.node_type is PV && !counted.hot.must_stop(clock) && ctx.ply
                > hot.seldepth {
                ctx.ply
            } else {
                hot.seldepth
            }),
            ..hot
        },
        ..counted
    }
}

/// What entering a node gives, by what the game answers, and the searcher after
/// that. A question is only asked where the ones before it left the node open.
pub open spec fn entry_fits<H: SearchHost>(
    host: &H,
    searcher: Searcher,
    ctx: NegamaxContext,
    a: EntryAnswers,
    r: NodeEntry,
    after: Searcher,
) -> bool {
    let asks = ctx.ply > 0 && ctx.alpha < VALUE_DRAW;
    let draw = draw_value(searcher.hot.nodes);
    let alpha = if asks && a.repeats && ctx.alpha < draw {
        draw as i32
    } else {
        ctx.alpha
    };
    &&& asks ==> call_ensures(H::upcoming_repetition, (host, ctx.ply), a.repeats)
    &&& if asks && a.repeats && draw >= ctx.beta {
        r == NodeEntry::Closed(draw as i32) && after == searcher
    } else {
        &&& call_ensures(H::is_in_check, (host,), a.in_check)
        &&& a.counted.node_entered(&searcher, ctx.ply as int, ctx.was_null_move)
        &&& call_ensures(H::read_clock, (host,), a.clock)
        &&& after == clocked(a.counted, ctx, a.clock)
        &&& if a.counted.hot.must_stop(a.clock) {
            r == NodeEntry::Closed(0)
        } else if ctx.ply == 0 {
            r == (NodeEntry::Open { alpha, beta: ctx.beta, in_check: a.in_check })
        } else {
            &&& call_ensures(H::is_draw, (host, ctx.ply, a.in_check), a.draw)
            &&& if a.draw {
                r == NodeEntry::Closed(draw_value(a.counted.hot.nodes) as i32)
            } else {
                &&& call_ensures(H::has_lost_by_royal_capture, (host,), a.lost)
                &&& if a.lost {
                    r == NodeEntry::Closed((-MATE_VALUE + ctx.ply) as i32)
                } else {
                    r == (match mate_distance_window(
                        alpha as int,
                        ctx.beta as int,
                        ctx.ply as int,
                    ) {
                        Window::Closed(v) => NodeEntry::Closed(v),
                        Window::Open(a1, b1) => NodeEntry::Open {
                            alpha: a1,
                            beta: b1,
                            in_check: a.in_check,
                        },
                    })
                }
            }
        }
    }
}

/// The entry of a node was this, for some answers of the game.
pub open spec fn entered<H: SearchHost>(
    host: &H,
    searcher: Searcher,
    ctx: NegamaxContext,
    r: NodeEntry,
    after: Searcher,
) -> bool {
    exists|a: EntryAnswers| #[trigger] entry_fits(host, searcher, ctx, a, r, after)
}

/// Enters a node. Repetitions, time, draws, a lost royal piece and mates that
/// are nearer may close it at once.
fn enter<H: SearchHost>(searcher: &mut Searcher, host: &H, ctx: &NegamaxContext) -> (r: NodeEntry)
    requires
        old(searcher).valid(),
        ctx.ply + 1 < MAX_PLY,
        is_score(ctx.alpha as int),
        is_score(ctx.beta as int),
        ctx.alpha < ctx.beta,
    ensures
        final(searcher).goes_on(old(searcher)),
        final(searcher).keeps_pv_before(old(searcher), ctx.ply as int),
        entered(host, *old(searcher), *ctx, r, *final(searcher)),
        match r {
            NodeEntry::Closed(v) => is_score(v as int),
            NodeEntry::Open { alpha, beta, .. } => ctx.alpha <= alpha < beta <= ctx.beta,
        },
{
    let ghost s0 = *searcher;
    let ghost mut a: EntryAnswers = arbitrary();
    let mut alpha: i32 = ctx.alpha;
    let beta: i32 = ctx.beta;
    let ply: usize = ctx.ply;
    if ply > 0 && alpha < VALUE_DRAW {
        let repeats = host.upcoming_repetition(ply);
        proof {
            a = EntryAnswers { repeats, ..a };
        }
        if repeats {
            match apply_repetition(alpha, beta, value_draw(searcher.hot.nodes)) {
                Window::Closed(v) => {
                    assert(entry_fits(host, s0, *ctx, a, NodeEntry::Closed(v), *searcher));
                    return NodeEntry::Closed(v);
                },
                Window::Open(a1, _b) => {
                    alpha = a1;
                },
            }
        }
    }
    let in_check = host.is_in_check();
    searcher.enter_node(ply, ctx.was_null_move);
    let clock = host.read_clock();
    proof {
        a = EntryAnswers { in_check, clock, counted: *searcher, ..a };
    }
    if searcher.poll_time(&clock) {
        assert(entry_fits(host, s0, *ctx, a, NodeEntry::Closed(0), *searcher));
        return NodeEntry::Closed(0);
    }
    if ctx.node_type == NodeType::PV {
        searcher.note_seldepth(ply);
    }
    if ply == 0 {
        let r = NodeEntry::Open { alpha, beta, in_check };
        assert(entry_fits(host, s0, *ctx, a, r, *searcher));
        return r;
    }
    let draw = host.is_draw(ply, in_check);
    proof {
        a = EntryAnswers { draw, ..a };
    }
    if draw {
        let r = NodeEntry::Closed(value_draw(searcher.hot.nodes));
        assert(entry_fits(host, s0, *ctx, a, r, *searcher));
        return r;
    }
    let lost = host.has_lost_by_royal_capture();
    proof {
        a = EntryAnswers { lost, ..a };
    }
    if lost {
        let r = NodeEntry::Closed(mated_in(ply));
        assert(entry_fits(host, s0, *ctx, a, r, *searcher));
        return r;
    }
    let r = match apply_mate_distance(alpha, beta, ply) {
        Window::Closed(v) => NodeEntry::Closed(v),
        Window::Open(a1, b1) => NodeEntry::Open { alpha: a1, beta: b1, in_check },
    };
    assert(entry_fits(host, s0, *ctx, a, r, *searcher));
    r
}

/// Whether a move captures, en passant included.
pub open spec fn takes(game: GameState, m: Move) -> bool {
    occupied(game.board@, m.to.x as int, m.to.y as int) || (game.en_passant == Some(m.to)
        && m.piece.piece_type is Pawn)
}

fn captures(game: &GameState, m: &Move) -> (r: bool)
    ensures
        r == takes(*game, *m),
{
    game.board.is_occupied(m.to.x, m.to.y) || (match game.en_passant {
        Some(sq) => sq == m.to,
        None => false,
    } && m.piece.piece_type == PieceType::Pawn)
}

/// What the table is told of an evaluation.
pub open spec fn evaluation_entry(hash: u64, raw: i32, tt: TtView, ply: usize) -> StoreContext {
    StoreContext {
        hash,
        depth: 0,
        flag: TTFlag::NoBound,
        score: 0,
        static_eval: raw,
        is_pv: tt.is_pv,
        best_move: tt.best_move,
        ply,
    }
}

/// The raw and the corrected evaluation of a node, with the game after that. In
/// check the evaluation two plies before stands in. An evaluation that the table
/// did not know is put there.
pub open spec fn node_evaluated<H: SearchHost>(
    before: &H,
    after: &H,
    searcher: Searcher,
    ply: usize,
    in_check: bool,
    tt: TtView,
    raw: i32,
    corrected: i32,
) -> bool {
    if in_check {
        raw == searcher.eval_before(ply as int) && corrected == raw && *after == *before
    } else {
        &&& if tt.eval != NO_VALUE {
            raw == tt.eval && *after == *before
        } else {
            exists|asked: H, game: GameState|
                #![trigger
                    raw_eval_of(before, raw, &asked),
                    call_ensures(H::game, (&asked,), &game)
                ]
                raw_eval_of(before, raw, &asked) && call_ensures(H::game, (&asked,), &game)
                    && table_told(&asked, evaluation_entry(game.hash, raw, tt, ply), after)
        }
        &&& exists|game: GameState| #[trigger]
            call_ensures(H::game, (after,), &game) && corrected == searcher.corrected(
                game,
                raw as int,
                ply as int,
            )
    }
}

/// The raw and the corrected evaluation of a node.
fn evaluate_node<H: SearchHost>(
    searcher: &Searcher,
    host: &mut H,
    ply: usize,
    in_check: bool,
    tt: &TtView,
) -> (r: (i32, i32))
    requires
        searcher.valid(),
        ply + 1 < MAX_PLY,
        tt.wf(),
    ensures
        -eval_bound(ply as int) + EVAL_DRIFT <= r.1 <= eval_bound(ply as int) - EVAL_DRIFT,
        !in_check ==> is_score(r.0 as int),
        node_evaluated(&*old(host), &*final(host), *searcher, ply, in_check, *tt, r.0, r.1),
        taken_back(*old(host), *final(host)),
{
    let ghost h0 = *host;
    proof {
        lemma_back_same(h0);
    }
    if in_check {
        let e: i32 = searcher.earlier_eval(ply);
        return (e, e);
    }
    let raw: i32 = if tt.eval != NO_VALUE {
        tt.eval
    } else {
        let raw: i32 = raw_eval(host);
        let ghost asked = *host;
        let game = host.game();
        let ghost g = *game;
        let entry = StoreContext {
            hash: game.hash,
            depth: 0,
            flag: TTFlag::NoBound,
            score: 0,
            static_eval: raw,
            is_pv: tt.is_pv,
            best_move: tt.best_move,
            ply,
        };
        assert(entry == evaluation_entry(g.hash, raw, *tt, ply));
        store_tt_with_shared(host, &entry);
        proof {
            assert(raw_eval_of(&h0, raw, &asked) && call_ensures(H::game, (&asked,), &g));
            lemma_back_then(h0, asked, *host);
        }
        raw
    };
    let game = host.game();
    let ghost g = *game;
    let r = (raw, searcher.corrected_eval(game, raw, ply));
    assert(call_ensures(H::game, (&*host,), &g) && r.1 == searcher.corrected(
        g,
        r.0 as int,
        ply as int,
    ));
    r
}

/// The searcher after a node was assessed: the reduction of the move to it is
/// taken off the stack, and its evaluation put there.
pub open spec fn assessing(before: Searcher, after: Searcher, ply: int, eval: i32) -> bool {
    exists|s: Searcher| #[trigger]
        s.reduction_taken(&before, ply) && after.eval_pushed(&s, ply, eval)
}

/// What the table, asked with the window of a node and a depth, tells of it.
pub open spec fn table_asked<H: SearchHost>(
    host: &H,
    rule_limit: i32,
    depth: usize,
    r: Node,
) -> bool {
    exists|game: &GameState| #[trigger]
        call_ensures(H::game, (host,), game) && r.hash == game.hash && (r.tt_capture
            <==> r.tt.best_move is Some && takes(*game, r.tt.best_move->0)) && exists|
            found: Option<TTProbeResult>,
        | #[trigger]
            probed(
                host,
                ProbeContext {
                    hash: game.hash,
                    alpha: r.alpha,
                    beta: r.beta,
                    depth,
                    ply: r.ply,
                    rule50_count: game.halfmove_clock,
                    rule_limit,
                },
                found,
            ) && r.tt == tt_reading(found)
}

/// The evaluations of a node, with the game after that: the raw one, and the
/// corrected one after smoothing.
pub open spec fn stands_at<H: SearchHost>(
    before: &H,
    after: &H,
    searcher: Searcher,
    r: Node,
) -> bool {
    exists|corrected: i32| #[trigger]
        node_evaluated(
            before,
            after,
            searcher,
            r.ply,
            r.in_check,
            r.tt,
            r.raw_eval,
            corrected,
        ) && r.static_eval == searcher.smoothed(r.ply as int, corrected as int, r.hash)
}

/// How a node stands that is assessed at `a`, and the point after that.
pub open spec fn assessed<H: SearchHost>(
    a: Point<H>,
    b: Point<H>,
    ctx: NegamaxContext,
    depth: usize,
    alpha: i32,
    beta: i32,
    in_check: bool,
    r: Node,
) -> bool {
    let ply = ctx.ply as int;
    let searcher = a.searcher;
    &&& r.ply == ctx.ply
    &&& r.alpha == alpha
    &&& r.beta == beta
    &&& r.node_type == ctx.node_type
    &&& r.allow_null == ctx.allow_null
    &&& r.excluded == ctx.excluded_move
    &&& r.in_check == in_check
    &&& table_asked(&a.host, searcher.move_rule_limit, depth, r)
    &&& r.tt_pv == (ctx.node_type is PV || (r.tt.hit && r.tt.is_pv))
    &&& stands_at(&a.host, &b.host, searcher, r)
    &&& assessing(searcher, b.searcher, ply, r.static_eval)
    &&& r.eval == (if ctx.excluded_move is None {
        refined(r.static_eval as int, r.tt)
    } else {
        r.static_eval as int
    })
    &&& r.improving == searcher.improves(ply, r.static_eval as int, in_check)
    &&& r.opponent_worsening == searcher.opponent_worsens(ply, r.static_eval as int, in_check)
    &&& r.depth == (if !in_check && ply > 0 {
        hindsight(
            depth as int,
            searcher.reduction_stack@[ply - 1] as int,
            r.opponent_worsening,
            r.static_eval + searcher.eval_stack@[ply - 1],
        )
    } else {
        depth as int
    })
}

/// Probes the table and evaluates a node.
fn assess<H: SearchHost>(
    searcher: &mut Searcher,
    host: &mut H,
    ctx: &NegamaxContext,
    depth: usize,
    alpha: i32,
    beta: i32,
    in_check: bool,
) -> (r: Node)
    requires
        old(searcher).valid(),
        ctx.ply + 1 < MAX_PLY,
        1 <= depth < MAX_PLY,
        is_score(alpha as int),
        is_score(beta as int),
        alpha < beta,
    ensures
        final(searcher).goes_on(old(searcher)),
        final(searcher).keeps_pv_before(old(searcher), ctx.ply as int),
        r.wf(),
        r.depth <= depth + 1,
        taken_back(*old(host), *final(host)),
        assessed(
            at(*old(host), *old(searcher)),
            at(*final(host), *final(searcher)),
            *ctx,
            depth,
            alpha,
            beta,
            in_check,
            r,
        ),
{
    let ply: usize = ctx.ply;
    let ghost s0 = *searcher;
    let ghost h0 = *host;
    let ghost depth0 = depth;
    let prior_reduction: i32 = searcher.take_reduction(ply);
    let ghost s1 = *searcher;
    let game = host.game();
    let hash: u64 = game.hash;
    let found = probe_tt_with_shared(
        host,
        &ProbeContext {
            hash,
            alpha,
            beta,
            depth,
            ply,
            rule50_count: game.halfmove_clock,
            rule_limit: searcher.move_rule_limit,
        },
    );
    let tt = read_tt(found);
    let tt_capture = match tt.best_move {
        Some(m) => captures(game, &m),
        None => false,
    };
    let (raw_eval, corrected) = evaluate_node(searcher, host, ply, in_check, &tt);
    let static_eval: i32 = searcher.push_eval(ply, corrected, hash);
    proof {
        assert(static_eval == s0.smoothed(ply as int, corrected as int, hash));
        assert(s1.reduction_taken(&s0, ply as int));
        assert(assessing(s0, *searcher, ply as int, static_eval));
    }
    let improving = searcher.is_improving(ply, static_eval, in_check);
    let opponent_worsening = searcher.is_opponent_worsening(ply, static_eval, in_check);
    let eval: i32 = if ctx.excluded_move.is_none() {
        refine_eval(static_eval, &tt)
    } else {
        static_eval
    };
    let depth: usize = if !in_check && ply > 0 {
        hindsight_depth(
            depth,
            prior_reduction,
            opponent_worsening,
            static_eval,
            searcher.last_eval(ply),
        )
    } else {
        depth
    };
    let r = Node {
        ply,
        depth,
        alpha,
        beta,
        node_type: ctx.node_type,
        allow_null: ctx.allow_null,
        excluded: ctx.excluded_move,
        in_check,
        hash,
        tt,
        tt_capture,
        tt_pv: ctx.node_type == NodeType::PV || (tt.hit && tt.is_pv),
        raw_eval,
        static_eval,
        eval,
        improving,
        opponent_worsening,
    };
    proof {
        let ply = ply as int;
        assert(table_asked(&h0, s0.move_rule_limit, depth0, r));
        let h1 = *host;
        assert(r.static_eval == s0.smoothed(r.ply as int, corrected as int, r.hash));
        assert(node_evaluated(
            &h0,
            &h1,
            s0,
            r.ply,
            r.in_check,
            r.tt,
            r.raw_eval,
            corrected,
        ));
        assert(stands_at(&h0, &h1, s0, r));
        assert(r.improving == s0.improves(ply, r.static_eval as int, in_check));
        assert(r.opponent_worsening == s0.opponent_worsens(ply, r.static_eval as int, in_check));
    }
    r
}

/// The table's score that may close a node, unless a position repeats.
pub open spec fn table_score(
    node: Node,
    halfmove_clock: u32,
    rule_limit: i32,
) -> Option<i32> {
    if node.node_type is PV || node.excluded is Some {
        None
    } else {
        cutoff_by_tt(
            node.tt,
            node.beta as int,
            node.depth as int,
            node.node_type is Cut,
            halfmove_clock,
            rule_limit,
        )
    }
}

/// The table may give this score to a node, or none: where it suffices, and no
/// position repeats.
pub open spec fn table_cut<H: SearchHost>(
    host: &H,
    rule_limit: i32,
    node: Node,
    r: Option<i32>,
) -> bool {
    exists|game: &GameState| #[trigger]
        call_ensures(H::game, (host,), game) && {
            let found = table_score(node, game.halfmove_clock, rule_limit);
            ||| found is None && r is None
            ||| found is Some && exists|repeats: bool| #[trigger]
                call_ensures(H::is_repetition, (host, node.ply), repeats) && r == (if repeats {
                    None
                } else {
                    found
                })
        }
}

fn cutoff_from_table<H: SearchHost>(searcher: &Searcher, host: &H, node: &Node) -> (r: Option<i32>)
    requires
        node.wf(),
    ensures
        r matches Some(v) ==> is_score(v as int),
        table_cut(host, searcher.move_rule_limit, *node, r),
{
    let game = host.game();
    if node.is_pv() || node.excluded.is_some() {
        return None;
    }
    let found = tt_cutoff(
        &node.tt,
        node.beta,
        node.depth,
        node.is_cut(),
        game.halfmove_clock,
        searcher.move_rule_limit,
    );
    if found.is_none() || host.is_repetition(node.ply) {
        None
    } else {
        found
    }
}

/// The search after a null move: whether the opponent stays below beta with a
/// free move.
pub open spec fn after_null_move(node: Node) -> NegamaxContext {
    NegamaxContext {
        depth: null_depth(node.depth as int) as usize,
        ply: (node.ply + 1) as usize,
        alpha: (-node.beta) as i32,
        beta: (-node.beta + 1) as i32,
        allow_null: false,
        node_type: NodeType::Cut,
        was_null_move: true,
        excluded_move: None,
    }
}

/// The search of the node itself that confirms a null move's result.
pub open spec fn confirming(node: Node) -> NegamaxContext {
    NegamaxContext {
        depth: null_depth(node.depth as int) as usize,
        ply: node.ply,
        alpha: (node.beta - 1) as i32,
        beta: node.beta,
        allow_null: false,
        node_type: NodeType::All,
        was_null_move: false,
        excluded_move: None,
    }
}

fn null_move_ctx(node: &Node) -> (r: NegamaxContext)
    requires
        node.wf(),
    ensures
        r == after_null_move(*node),
{
    NegamaxContext {
        depth: null_move_depth(node.depth),
        ply: node.ply + 1,
        alpha: -node.beta,
        beta: -node.beta + 1,
        allow_null: false,
        node_type: NodeType::Cut,
        was_null_move: true,
        excluded_move: None,
    }
}

fn confirming_ctx(node: &Node) -> (r: NegamaxContext)
    requires
        node.wf(),
    ensures
        r == confirming(*node),
{
    NegamaxContext {
        depth: null_move_depth(node.depth),
        ply: node.ply,
        alpha: node.beta - 1,
        beta: node.beta,
        allow_null: false,
        node_type: NodeType::All,
        was_null_move: false,
        excluded_move: None,
    }
}

/// What follows from the score of a null move.
#[derive(Clone, Copy, PartialEq, Eq, Structural, Debug)]
pub enum NullVerdict {
    /// The node is searched on.
    Continue,
    /// The node has this score.
    Prune,
    /// The node has this score if a search of the node itself confirms it.
    Confirm,
}

/// A score that fails high prunes, unless it claims a win; at high depth it has to
/// be confirmed.
pub open spec fn null_verdict(score: int, beta: int, depth: int) -> NullVerdict {
    if score < beta || winning(score) {
        NullVerdict::Continue
    } else if depth >= 16 {
        NullVerdict::Confirm
    } else {
        NullVerdict::Prune
    }
}

pub fn judge_null_move(score: i32, beta: i32, depth: usize) -> (r: NullVerdict)
    ensures
        r == null_verdict(score as int, beta as int, depth as int),
{
    if score < beta || is_win(score) {
        NullVerdict::Continue
    } else if depth >= 16 {
        NullVerdict::Confirm
    } else {
        NullVerdict::Prune
    }
}

/// Gives the opponent a free move. Where the node still fails high, its score;
/// at high depth only if a reduced search of the node itself confirms it.
fn try_null<H: SearchHost>(
    searcher: &mut Searcher,
    host: &mut H,
    node: &Node,
    Ghost(bound): Ghost<nat>,
) -> (r: Option<i32>)
    requires
        old(searcher).valid(),
        node.wf(),
        1 <= bound,
        node.depth <= bound + 1,
    ensures
        final(searcher).goes_on(old(searcher)),
        final(searcher).keeps_pv_before(old(searcher), node.ply as int),
        r matches Some(v) ==> is_score(v as int),
        null_answered(
            at(*old(host), *old(searcher)),
            *node,
            bound,
            at(*final(host), *final(searcher)),
            r,
        ),
        taken_back(*old(host), *final(host)),
    decreases MAX_PLY - node.ply, bound, 1int,
{
    let ply: usize = node.ply;
    let saved = searcher.record(ply);
    let passed = PlyRecord { made: None, ..saved };
    let ghost s0 = *searcher;
    let ghost h0 = *host;
    proof {
        searcher.lemma_record(ply as int);
        s0.bearings().lemma_overwritten(ply as int, passed, saved);
    }
    searcher.put_record(ply, &passed);
    host.make_null_move();
    let ghost c = at(*host, *searcher);
    let reply: i32 = negamax(searcher, host, &null_move_ctx(node));
    let ghost d = at(*host, *searcher);
    let score: i32 = -reply;
    host.unmake_null_move();
    searcher.put_record(ply, &saved);
    let ghost e = at(*host, *searcher);
    proof {
        reveal(null_answered);
        reveal(searched);
        lemma_back_pass(h0, c.host, d.host, e.host);
        assert(null_made(at(h0, s0), *node, c));
        assert(null_unmade(at(h0, s0), *node, d, e));
        assert(is_score(reply as int));
    }
    if searcher.hot.stopped {
        return Some(0);
    }
    match judge_null_move(score, node.beta, node.depth) {
        NullVerdict::Continue => None,
        NullVerdict::Prune => Some(score),
        NullVerdict::Confirm => {
            let own: i32 = negamax(searcher, host, &confirming_ctx(node));
            proof {
                assert(is_score(own as int));
                lemma_back_then(h0, e.host, *host);
            }
            if own >= node.beta {
                Some(score)
            } else {
                None
            }
        },
    }
}

/// The score of a node whose evaluation exceeds beta by a margin.
pub open spec fn futile(node: Node) -> Option<i32> {
    if rfp_applies(
        node.tt_pv,
        node.depth as int,
        node.tt.best_move is None || node.tt_capture,
        node.beta as int,
        node.eval as int,
    ) {
        match rfp_score(
            node.eval as int,
            node.beta as int,
            futility_margin(
                node.depth as int,
                node.tt.hit,
                node.improving,
                node.opponent_worsening,
                node.static_eval - node.raw_eval,
            ),
        ) {
            Some(v) => Some(v as i32),
            None => None,
        }
    } else {
        None
    }
}

/// Whether only the captures of a node are looked at.
pub open spec fn razored(node: Node) -> bool {
    !(node.node_type is PV) && razors(node.eval as int, node.alpha as int, node.depth as int)
}

/// Whether the opponent may be given a free move.
pub open spec fn null_tried(node: Node) -> bool {
    null_move_applies(
        node.node_type is Cut,
        node.allow_null,
        node.depth as int,
        node.beta as int,
        node.static_eval as int,
    )
}

/// A node that was not pruned. An evaluation above beta counts as improving, and
/// the depth is less where the table has no move.
pub open spec fn unpruned(node: Node) -> Node {
    Node {
        improving: node.improving || node.static_eval >= node.beta,
        depth: iir(node.depth as int, node.tt.best_move is Some) as usize,
        ..node
    }
}

/// Tries to prune a node before its moves are looked at. Where that fails, the
/// depth may be less and the position may count as improving.
fn prune<H: SearchHost>(
    searcher: &mut Searcher,
    host: &mut H,
    node: &mut Node,
    Ghost(bound): Ghost<nat>,
) -> (r: Option<i32>)
    requires
        old(searcher).valid(),
        old(node).wf(),
        !old(node).in_check,
        1 <= bound,
        old(node).depth <= bound + 1,
    ensures
        final(searcher).goes_on(old(searcher)),
        final(searcher).keeps_pv_before(old(searcher), old(node).ply as int),
        r matches Some(v) ==> is_score(v as int),
        pruned(
            at(*old(host), *old(searcher)),
            *old(node),
            bound,
            at(*final(host), *final(searcher)),
            r,
        ),
        taken_back(*old(host), *final(host)),
        final(node).wf(),
        r is Some ==> *final(node) == *old(node),
        r is None ==> *final(node) == unpruned(*old(node)),
    decreases MAX_PLY - old(node).ply, bound, 2int,
{
    let ghost h0 = *host;
    let ghost a = at(*host, *searcher);
    let ghost n0 = *node;
    proof {
        reveal(pruned);
        reveal(null_answered);
        lemma_back_same(h0);
    }
    if !node.is_pv() && should_razor(node.eval, node.alpha, node.depth) {
        return Some(
            quiescence(searcher, host, node.ply, node.alpha, node.beta, node.node_type),
        );
    }
    let cut = reverse_futility(
        node.tt_pv,
        node.depth,
        node.tt.best_move.is_none() || node.tt_capture,
        node.beta,
        node.eval,
        node.tt.hit,
        node.improving,
        node.opponent_worsening,
        node.correction(),
    );
    if cut.is_some() {
        return cut;
    }
    let turn = host.game().turn;
    let due = should_try_null_move(
        node.is_cut(),
        node.allow_null,
        node.depth,
        node.beta,
        node.static_eval,
    ) && host.has_non_pawn_material(turn);
    assert(null_due(&h0, *node, due));
    if due {
        let score = try_null(searcher, host, node, Ghost(bound));
        if score.is_some() {
            return score;
        }
        assert(null_answered(a, n0, bound, at(*host, *searcher), None));
    }
    assert(!razored(n0));
    assert(futile(n0) is None);
    assert(null_due(&a.host, n0, due));
    assert(pruned(a, n0, bound, at(*host, *searcher), None));
    node.improving = node.improving || node.static_eval >= node.beta;
    node.depth = iir_depth(node.depth, node.tt.best_move.is_some());
    None
}

/// Whether good captures are tried against a raised beta.
pub open spec fn probcut_tried(node: Node) -> bool {
    probcut_applies(
        node.node_type is PV,
        node.in_check,
        node.depth as int,
        node.beta as int,
        node.tt.value,
        probcut_bound(node.beta as int, node.improving),
    )
}

/// The search after a capture that has to reach a raised beta.
pub open spec fn against_raised(node: Node, raised: i32) -> NegamaxContext {
    NegamaxContext {
        depth: probcut_search_depth(
            node.depth as int,
            node.static_eval as int,
            node.beta as int,
        ) as usize,
        ply: (node.ply + 1) as usize,
        alpha: (-raised) as i32,
        beta: (-raised + 1) as i32,
        allow_null: true,
        node_type: NodeType::Cut,
        was_null_move: false,
        excluded_move: None,
    }
}

fn raised_ctx(node: &Node, raised: i32) -> (r: NegamaxContext)
    requires
        node.wf(),
        is_score(raised as int),
    ensures
        r == against_raised(*node, raised),
        r.depth <= node.depth,
{
    NegamaxContext {
        depth: probcut_depth(node.depth, node.static_eval, node.beta),
        ply: node.ply + 1,
        alpha: -raised,
        beta: -raised + 1,
        allow_null: true,
        node_type: NodeType::Cut,
        was_null_move: false,
        excluded_move: None,
    }
}

/// Tries good captures against a raised beta. Where one holds in quiescence
/// and in a reduced search, the node is pruned.
#[verifier::rlimit(40)]
fn probcut<H: SearchHost>(
    searcher: &mut Searcher,
    host: &mut H,
    node: &Node,
    Ghost(bound): Ghost<nat>,
) -> (r: Option<i32>)
    requires
        old(searcher).valid(),
        node.wf(),
    ensures
        final(searcher).goes_on(old(searcher)),
        final(searcher).keeps_pv_before(old(searcher), node.ply as int),
        r matches Some(v) ==> is_score(v as int),
        captures_tried(
            at(*old(host), *old(searcher)),
            *node,
            at(*final(host), *final(searcher)),
            r,
        ),
        taken_back(*old(host), *final(host)),
    decreases MAX_PLY - node.ply, bound, 2int,
{
    let ghost a = at(*host, *searcher);
    proof {
        reveal(captures_tried);
        lemma_back_same(a.host);
    }
    let raised: i32 = probcut_beta(node.beta, node.improving);
    if !should_try_probcut(
        node.is_pv(),
        node.in_check,
        node.depth,
        node.beta,
        node.tt.value,
        raised,
    ) {
        return None;
    }
    let ctx = raised_ctx(node, raised);
    let mut moves = host.start_probcut(searcher, node.tt.best_move, raised - node.static_eval);
    let mut left: u32 = u32::MAX;
    let ghost start = Stage { at: at(*host, *searcher), moves };
    proof {
        reveal(captures_missed);
        assert(captures_started(a, *node, start));
        assert(a.host.starts_probcut(
            a.searcher,
            node.tt.best_move,
            (raised - node.static_eval) as i32,
            moves,
            &start.at.host,
        ));
        lemma_back_steady(a.host, start.at.host);
    }
    while left > 0
        invariant
            searcher.goes_on(old(searcher)),
            searcher.keeps_pv_before(old(searcher), node.ply as int),
            a == at(*old(host), *old(searcher)),
            taken_back(a.host, *host),
            node.wf(),
            raised == probcut_bound(node.beta as int, node.improving),
            probcut_tried(*node),
            ctx == against_raised(*node, raised),
            ctx.depth <= node.depth,
            captures_started(a, *node, start),
            captures_missed(
                start,
                *node,
                (u32::MAX - left) as nat,
                Stage { at: at(*host, *searcher), moves },
            ),
        decreases left,
    {
        let ghost c = Stage { at: at(*host, *searcher), moves };
        let ghost n = (u32::MAX - left) as nat;
        let next = host.next_move(searcher, &mut moves);
        let ghost d = Stage { at: at(*host, *searcher), moves };
        proof {
            assert(c.at.host.offers(c.at.searcher, c.moves, next, d.moves, &d.at.host));
            lemma_back_steady(c.at.host, d.at.host);
            lemma_back_then(a.host, c.at.host, d.at.host);
            assert(offered_at_most(n));
            assert(c.sound());
        }
        let m = match next {
            Some(m) => m,
            None => {
                proof {
                    assert(runs_out(c, d.at));
                    reveal(captures_missed);
                    reveal(captures_tried);
                    assert(captures_tried(a, *node, d.at, None));
                }
                return None;
            },
        };
        left -= 1;
        let fast = host.is_legal_fast(&m, node.in_check);
        proof {
            reveal(captures_missed);
            reveal(capture_step);
            reveal(capture_taken);
            reveal(capture_judged);
            assert(offered(c, m, d));
        }
        if fast == Some(false) {
            proof {
                assert(capture_taken(d.at, *node, m, d.at, None));
                assert(capture_step(c, *node, d, None));
            }
            continue;
        }
        let found = try_capture(searcher, host, node, &ctx, raised, &m, fast, Ghost(bound));
        let ghost e = Stage { at: at(*host, *searcher), moves };
        proof {
            lemma_back_then(a.host, d.at.host, e.at.host);
            assert(capture_taken(d.at, *node, m, e.at, found));
            assert(capture_step(c, *node, e, found));
        }
        if found.is_some() {
            proof {
                assert(e.sound());
                reveal(captures_tried);
                assert(captures_tried(a, *node, e.at, found));
            }
            return found;
        }
    }
    proof {
        let c = Stage { at: at(*host, *searcher), moves };
        assert(c.sound());
        reveal(captures_tried);
        reveal(captures_missed);
        assert(offered_at_most(u32::MAX as nat));
        assert(captures_tried(a, *node, c.at, None));
    }
    None
}

/// What the table is told of a capture that held against a raised beta.
pub open spec fn held_entry(node: Node, raised: i32, m: Move, score: i32) -> StoreContext {
    StoreContext {
        hash: node.hash,
        depth: (against_raised(node, raised).depth + 1) as usize,
        flag: TTFlag::LowerBound,
        score,
        static_eval: node.raw_eval,
        is_pv: false,
        best_move: Some(m),
        ply: node.ply,
    }
}

/// Makes a capture and looks whether it holds against a raised beta, unless it
/// turns out illegal. If it does, the score of the node.
fn try_capture<H: SearchHost>(
    searcher: &mut Searcher,
    host: &mut H,
    node: &Node,
    ctx: &NegamaxContext,
    raised: i32,
    m: &Move,
    known: Option<bool>,
    Ghost(bound): Ghost<nat>,
) -> (r: Option<i32>)
    requires
        old(searcher).valid(),
        node.wf(),
        raised == probcut_bound(node.beta as int, node.improving),
        probcut_tried(*node),
        *ctx == against_raised(*node, raised),
        ctx.depth <= node.depth,
    ensures
        final(searcher).goes_on(old(searcher)),
        final(searcher).keeps_pv_before(old(searcher), node.ply as int),
        r matches Some(v) ==> is_score(v as int),
        exists|undo: H::Undo, made: H| #[trigger]
            old(host).makes(*m, undo, &made) && capture_judged(
                at(made, *old(searcher)),
                *node,
                *m,
                undo,
                known,
                at(*final(host), *final(searcher)),
                r,
            ),
        taken_back(*old(host), *final(host)),
    decreases MAX_PLY - node.ply, bound, 1int,
{
    let ghost h0 = *host;
    let ghost s0 = *searcher;
    let undo = host.make_move(m);
    let illegal = known.is_none() && host.is_move_illegal();
    let ghost a = at(*host, *searcher);
    let ghost u = undo;
    proof {
        reveal(capture_judged);
        reveal(searched);
        assert(h0.makes(*m, u, &a.host));
        assert(found_illegal(&a.host, known, illegal));
        lemma_back_same(a.host);
    }
    if illegal {
        host.undo_move(m, undo);
        proof {
            lemma_back_move(h0, a.host, a.host, *host, *m, u);
            assert(capture_judged(a, *node, *m, u, known, at(*host, *searcher), None));
        }
        return None;
    }
    let reply: i32 = quiescence(searcher, host, ctx.ply, ctx.alpha, ctx.beta, ctx.node_type);
    let mut score: i32 = -reply;
    let ghost c = at(*host, *searcher);
    proof {
        assert(c.sound());
        assert(is_score(reply as int));
    }
    if score >= raised {
        score = -negamax(searcher, host, ctx);
        proof {
            lemma_back_then(a.host, c.host, *host);
        }
    }
    let ghost d = at(*host, *searcher);
    host.undo_move(m, undo);
    let ghost back = *host;
    proof {
        lemma_back_move(h0, a.host, d.host, back, *m, u);
        assert(d.host.unmakes(*m, u, &back));
    }
    if searcher.hot.stopped {
        proof {
            let b = at(*host, *searcher);
            assert(capture_settled(d, *node, *m, u, (-(-score)) as i32, b, Some(0)));
            assert(capture_judged(a, *node, *m, u, known, b, Some(0)));
        }
        return Some(0);
    }
    if score >= raised {
        let entry = StoreContext {
            hash: node.hash,
            depth: ctx.depth + 1,
            flag: TTFlag::LowerBound,
            score,
            static_eval: node.raw_eval,
            is_pv: false,
            best_move: Some(*m),
            ply: node.ply,
        };
        assert(entry == held_entry(*node, raised, *m, score));
        store_tt_with_shared(host, &entry);
        proof {
            lemma_back_then(h0, back, *host);
        }
        if !is_decisive(score) {
            let found: i32 = score - (raised - node.beta);
            proof {
                let b = at(*host, *searcher);
                assert(capture_settled(d, *node, *m, u, (-(-score)) as i32, b, Some(found)));
                assert(capture_judged(a, *node, *m, u, known, b, Some(found)));
            }
            return Some(found);
        }
    }
    proof {
        let b = at(*host, *searcher);
        assert(capture_settled(d, *node, *m, u, (-(-score)) as i32, b, None));
        assert(capture_judged(a, *node, *m, u, known, b, None));
    }
    None
}

/// What a node has found so far.
pub struct Progress {
    pub alpha: i32,
    pub depth: usize,
    pub best_score: i32,
    pub best_move: Option<Move>,
    pub legal_moves: usize,
    /// The quiet moves searched.
    pub quiets: MoveList,
    /// Score and depth for testing whether the table move is singular, until
    /// that was tested.
    pub singular: Option<(i32, usize)>,
}

impl Progress {
    pub open spec fn wf(&self, node: &Node, bound: nat) -> bool {
        &&& is_score(self.alpha as int)
        &&& node.alpha <= self.alpha
        &&& is_score(self.best_score as int)
        &&& self.best_score <= self.alpha
        &&& node.alpha < self.alpha ==> self.best_score == self.alpha && self.best_move is Some
        &&& self.best_move is Some ==> self.legal_moves > 0
        &&& node.depth <= self.depth <= node.depth + 1
        &&& self.singular matches Some((v, d)) ==> {
            &&& self.depth == node.depth
            &&& d < bound
            &&& -MATE_SCORE <= v <= MATE_SCORE
        }
    }
}

/// What matters of a move.
#[derive(Clone, Copy)]
pub struct MoveInfo {
    pub m: Move,
    /// The kind of piece on the destination.
    pub captured: Option<PieceType>,
    /// Whether that piece can be captured.
    pub is_capture: bool,
    pub gives_check: bool,
    pub is_tt_move: bool,
}

impl MoveInfo {
    fn is_quiet(&self) -> (r: bool)
        ensures
            r == (!self.is_capture && self.m.promotion is None),
    {
        !self.is_capture && self.m.promotion.is_none()
    }
}

/// Whether two moves have the same squares and promotion.
pub open spec fn same_step(a: Move, b: Move) -> bool {
    a.from == b.from && a.to == b.to && a.promotion == b.promotion
}

fn is_same_step(a: &Move, b: &Option<Move>) -> (r: bool)
    ensures
        r == (*b is Some && same_step(*a, b->0)),
{
    match b {
        Some(b) => a.from == b.from && a.to == b.to && a.promotion == b.promotion,
        None => false,
    }
}

/// What the game tells of a move.
pub open spec fn looked_at<H: SearchHost>(host: &H, node: Node, m: Move, r: MoveInfo) -> bool {
    &&& r.m == m
    &&& exists|game: &GameState| #[trigger]
        call_ensures(H::game, (host,), game) && match r.captured {
            Some(t) => exists|q: Piece| #[trigger]
                game.board@.contains((m.to.x, m.to.y, q)) && q.piece_type == t,
            None => !occupied(game.board@, m.to.x as int, m.to.y as int),
        }
    &&& r.is_capture == (r.captured is Some && !(r.captured->0).neutral())
    &&& call_ensures(H::move_gives_check, (host, &m), r.gives_check)
    &&& r.is_tt_move == (node.tt.best_move is Some && same_step(m, node.tt.best_move->0))
}

fn look_at<H: SearchHost>(host: &H, node: &Node, m: &Move) -> (r: MoveInfo)
    ensures
        looked_at(host, *node, *m, r),
{
    let game = host.game();
    let captured = match game.board.get_piece(m.to.x, m.to.y) {
        Some(p) => Some(p.piece_type),
        None => None,
    };
    let is_capture = match captured {
        Some(t) => !t.is_neutral_type(),
        None => false,
    };
    MoveInfo {
        m: *m,
        captured,
        is_capture,
        gives_check: host.move_gives_check(m),
        is_tt_move: is_same_step(m, &node.tt.best_move),
    }
}

/// Whether a capture or a check is pruned at shallow depth, by the value of
/// the captured piece and the outcome of exchanges. Checks and moves that take
/// nothing are not.
pub open spec fn capture_skipped(
    searcher: Searcher,
    node: Node,
    p: Progress,
    info: MoveInfo,
    new_depth: int,
    value: int,
    see: int,
) -> bool {
    info.captured is Some && !info.gives_check && (capture_futile(
        searcher,
        node,
        p,
        info,
        new_depth,
        value,
    ) || see < -capture_see_allowance(p.depth as int, capture_history_entry(searcher, info)))
}

fn skips_capture<H: SearchHost>(
    searcher: &Searcher,
    host: &H,
    node: &Node,
    p: &Progress,
    info: &MoveInfo,
    new_depth: usize,
) -> (r: bool)
    requires
        searcher.valid(),
        node.wf(),
        p.depth <= MAX_PLY + 1,
        new_depth <= MAX_PLY,
    ensures
        exists|value: i32, see: i32| #[trigger]
            capture_skipped(
                *searcher,
                *node,
                *p,
                *info,
                new_depth as int,
                value as int,
                see as int,
            ) == r && capture_asked(
                *searcher,
                host,
                *node,
                *p,
                *info,
                new_depth as int,
                value,
                see,
            ),
{
    let captured = match info.captured {
        Some(c) => c,
        None => {
            assert(!capture_skipped(*searcher, *node, *p, *info, new_depth as int, 0, 0));
            assert(capture_asked(*searcher, host, *node, *p, *info, new_depth as int, 0, 0));
            return false;
        },
    };
    if info.gives_check {
        assert(!capture_skipped(*searcher, *node, *p, *info, new_depth as int, 0, 0));
        assert(capture_asked(*searcher, host, *node, *p, *info, new_depth as int, 0, 0));
        return false;
    }
    let history: i32 = searcher.capture_history_of(info.m.piece.piece_type, captured);
    let ghost mut asked: i32 = 0;
    if new_depth < 7 {
        let game = host.game();
        let enemy = game.turn.opponent();
        let value: i32 = host.get_piece_value(captured, enemy);
        proof {
            asked = value;
        }
        if is_capture_futile(node.static_eval, new_depth as i32, value, history, p.alpha) {
            assert(capture_skipped(
                *searcher,
                *node,
                *p,
                *info,
                new_depth as int,
                value as int,
                0,
            ));
            assert(capture_asked(*searcher, host, *node, *p, *info, new_depth as int, value, 0));
            return true;
        }
    }
    let see: i32 = host.static_exchange_eval(&info.m);
    let r = loses_capture(see, p.depth, history);
    assert(capture_skipped(
        *searcher,
        *node,
        *p,
        *info,
        new_depth as int,
        asked as int,
        see as int,
    ) == r);
    assert(capture_asked(*searcher, host, *node, *p, *info, new_depth as int, asked, see));
    r
}

/// Whether a capture is futile by the value of the captured piece, so that the
/// outcome of exchanges is not asked for.
pub open spec fn capture_futile(
    searcher: Searcher,
    node: Node,
    p: Progress,
    info: MoveInfo,
    new_depth: int,
    value: int,
) -> bool {
    new_depth < 7 && capture_is_futile(
        node.static_eval as int,
        new_depth,
        value,
        capture_history_entry(searcher, info),
        p.alpha as int,
    )
}

/// The history of a capture.
pub open spec fn capture_history_entry(searcher: Searcher, info: MoveInfo) -> int {
    let piece = info.m.piece.piece_type.index_spec();
    searcher.capture_history@[piece]@[(info.captured->0).index_spec()] as int
}

/// The game answered with the value of the captured piece where that counts,
/// and with the outcome of exchanges unless the capture is futile.
pub open spec fn capture_asked<H: SearchHost>(
    searcher: Searcher,
    host: &H,
    node: Node,
    p: Progress,
    info: MoveInfo,
    new_depth: int,
    value: i32,
    see: i32,
) -> bool {
    info.captured is Some && !info.gives_check ==> {
        &&& new_depth < 7 ==> exists|game: &GameState| #[trigger]
            call_ensures(H::game, (host,), game) && call_ensures(
                H::get_piece_value,
                (host, info.captured->0, game.turn.opponent_spec()),
                value,
            )
        &&& capture_futile(searcher, node, p, info, new_depth, value as int) || call_ensures(
            H::static_exchange_eval,
            (host, &info.m),
            see,
        )
    }
}

/// Whether a quiet move is pruned at shallow depth, by the outcome of
/// exchanges, and the best score after that. Where the move is dropped as
/// futile, the best score rises to what was hoped of it.
pub open spec fn quiet_skipped(
    searcher: Searcher,
    node: Node,
    p: Progress,
    m: Move,
    new_depth: int,
    see: int,
) -> (bool, int) {
    let best = p.best_score as int;
    let history = searcher.history@[m.piece.piece_type.index_spec()]@[square_slot(
        m.to.x,
        m.to.y,
    )] as int;
    let expected = quiet_depth(new_depth, history);
    let hope = quiet_futility(node.static_eval as int, p.best_move is Some, expected);
    if history_prunes(history, p.depth as int) {
        (true, best)
    } else if !node.in_check && expected < 13 && hope <= p.alpha {
        (
            true,
            if best <= hope && !decisive(best) {
                hope
            } else {
                best
            },
        )
    } else {
        (quiet_loses(see, expected), best)
    }
}

/// The game answered with the outcome of exchanges, unless the history or the
/// evaluation already drops a quiet move.
pub open spec fn quiet_asked<H: SearchHost>(
    searcher: Searcher,
    host: &H,
    node: Node,
    p: Progress,
    m: Move,
    new_depth: int,
    see: i32,
) -> bool {
    let history = searcher.history@[m.piece.piece_type.index_spec()]@[square_slot(
        m.to.x,
        m.to.y,
    )] as int;
    let expected = quiet_depth(new_depth, history);
    ||| history_prunes(history, p.depth as int)
    ||| !node.in_check && expected < 13 && quiet_futility(
        node.static_eval as int,
        p.best_move is Some,
        expected,
    ) <= p.alpha
    ||| call_ensures(H::static_exchange_eval, (host, &m), see)
}

fn skips_quiet<H: SearchHost>(
    searcher: &Searcher,
    host: &H,
    node: &Node,
    p: &mut Progress,
    info: &MoveInfo,
    new_depth: usize,
) -> (r: bool)
    requires
        searcher.valid(),
        node.wf(),
        is_score(old(p).best_score as int),
        is_score(old(p).alpha as int),
        old(p).depth <= MAX_PLY + 1,
        new_depth <= MAX_PLY,
    ensures
        *final(p) == (Progress { best_score: final(p).best_score, ..*old(p) }),
        is_score(final(p).best_score as int),
        old(p).best_score <= final(p).best_score,
        final(p).best_score <= old(p).alpha || *final(p) == *old(p),
        exists|see: i32| #[trigger]
            quiet_skipped(*searcher, *node, *old(p), info.m, new_depth as int, see as int) == (
            r,
            final(p).best_score as int,
        ) && quiet_asked(*searcher, host, *node, *old(p), info.m, new_depth as int, see),
{
    let ghost p0 = *p;
    let history: i32 = searcher.history_of(&info.m);
    if is_pruned_by_history(history, p.depth) {
        assert(quiet_skipped(*searcher, *node, p0, info.m, new_depth as int, 0) == (
            true,
            p.best_score as int,
        ));
        return true;
    }
    let expected: i32 = expected_quiet_depth(new_depth, history);
    if !node.in_check && expected < 13 {
        let hope: i32 = quiet_futility_value(node.static_eval, p.best_move.is_some(), expected);
        if hope <= p.alpha {
            if p.best_score <= hope && !is_decisive(p.best_score) {
                p.best_score = hope;
            }
            assert(quiet_skipped(*searcher, *node, p0, info.m, new_depth as int, 0) == (
                true,
                p.best_score as int,
            ));
            return true;
        }
    }
    let see: i32 = host.static_exchange_eval(&info.m);
    let r = loses_quiet(see, expected);
    assert(quiet_skipped(*searcher, *node, p0, info.m, new_depth as int, see as int) == (
        r,
        p.best_score as int,
    ));
    r
}

/// Whether moves of a node may be pruned at shallow depth: off the principal
/// variation, with pieces left and nothing lost so far.
pub open spec fn moves_prunable<H: SearchHost>(host: &H, node: Node, p: Progress, r: bool) -> bool {
    exists|game: &GameState, pieces: bool|
        #![trigger call_ensures(H::has_non_pawn_material, (host, game.turn), pieces)]
        call_ensures(H::game, (host,), game) && call_ensures(
            H::has_non_pawn_material,
            (host, game.turn),
            pieces,
        ) && r == (!(node.node_type is PV) && pieces && !losing(p.best_score as int))
}

fn prunes_moves<H: SearchHost>(host: &H, node: &Node, p: &Progress) -> (r: bool)
    ensures
        moves_prunable(host, *node, *p, r),
{
    let game = host.game();
    let pieces = host.has_non_pawn_material(game.turn);
    !node.is_pv() && pieces && !is_loss(p.best_score)
}

/// Whether a move is pruned at shallow depth, and what the node has found after
/// that.
pub open spec fn move_judged<H: SearchHost>(
    searcher: Searcher,
    host: &H,
    node: Node,
    before: Progress,
    after: Progress,
    info: MoveInfo,
    new_depth: int,
    r: bool,
) -> bool {
    &&& after == (Progress { best_score: after.best_score, ..before })
    &&& if info.is_capture || info.gives_check {
        after == before && exists|value: i32, see: i32| #[trigger]
            capture_skipped(
                searcher,
                node,
                before,
                info,
                new_depth,
                value as int,
                see as int,
            ) == r && capture_asked(searcher, host, node, before, info, new_depth, value, see)
    } else {
        exists|see: i32| #[trigger]
            quiet_skipped(searcher, node, before, info.m, new_depth, see as int) == (
            r,
            after.best_score as int,
        ) && quiet_asked(searcher, host, node, before, info.m, new_depth, see)
    }
}

/// Whether a move is pruned at shallow depth.
fn skips_move<H: SearchHost>(
    searcher: &Searcher,
    host: &H,
    node: &Node,
    p: &mut Progress,
    info: &MoveInfo,
    new_depth: usize,
) -> (r: bool)
    requires
        searcher.valid(),
        node.wf(),
        is_score(old(p).best_score as int),
        is_score(old(p).alpha as int),
        old(p).depth <= MAX_PLY + 1,
        new_depth <= MAX_PLY,
    ensures
        *final(p) == (Progress { best_score: final(p).best_score, ..*old(p) }),
        is_score(final(p).best_score as int),
        old(p).best_score <= final(p).best_score,
        final(p).best_score <= old(p).alpha || *final(p) == *old(p),
        move_judged(
            *searcher,
            host,
            *node,
            *old(p),
            *final(p),
            *info,
            new_depth as int,
            r,
        ),
{
    if info.is_capture || info.gives_check {
        skips_capture(searcher, host, node, p, info, new_depth)
    } else {
        skips_quiet(searcher, host, node, p, info, new_depth)
    }
}

/// The depth that a node is searched to at most.
pub open spec fn capped(depth: usize) -> usize {
    if depth < MAX_PLY {
        depth
    } else {
        63
    }
}

/// Searches a node.
pub fn negamax<H: SearchHost>(
    searcher: &mut Searcher,
    host: &mut H,
    ctx: &NegamaxContext,
) -> (r: i32)
    requires
        old(searcher).valid(),
        ctx.ply < MAX_PLY,
        is_score(ctx.alpha as int),
        is_score(ctx.beta as int),
        ctx.alpha < ctx.beta,
    ensures
        final(searcher).goes_on(old(searcher)),
        final(searcher).keeps_pv_before(old(searcher), ctx.ply as int),
        is_score(r as int),
        searched(
            at(*old(host), *old(searcher)),
            *ctx,
            at(*final(host), *final(searcher)),
            r,
        ),
        // The game and the path are as before the call, also where it was stopped.
        taken_back(*old(host), *final(host)),
        game_kept(*old(host), *final(host)),
        same_path(*old(searcher), *final(searcher)),
    decreases MAX_PLY - ctx.ply, ctx.depth as nat, 8int,
{
    broadcast use {taking_back_keeps_the_game, searches_keep_the_path};

    proof {
        reveal(searched);
    }
    if ctx.depth == 0 {
        return quiescence(searcher, host, ctx.ply, ctx.alpha, ctx.beta, ctx.node_type);
    }
    let depth: usize = if ctx.depth < MAX_PLY - 1 {
        ctx.depth
    } else {
        MAX_PLY - 1
    };
    if ctx.ply >= MAX_PLY - 1 {
        let ghost h0 = *host;
        let raw: i32 = raw_eval(host);
        let ghost h1 = *host;
        let game = host.game();
        let ghost g = *game;
        let r: i32 = searcher.corrected_eval(game, raw, ctx.ply);
        proof {
            lemma_last_ply(at(h0, *searcher), *ctx, raw, g, at(h1, *searcher), r);
        }
        return r;
    }
    let ghost s0 = *searcher;
    let ghost h0 = *host;
    let entry = enter(searcher, host, ctx);
    let ghost s1 = *searcher;
    proof {
        lemma_back_same(h0);
        assert(entered(&h0, s0, *ctx, entry, s1));
    }
    let (alpha, beta, in_check) = match entry {
        NodeEntry::Closed(v) => {
            return v;
        },
        NodeEntry::Open { alpha, beta, in_check } => (alpha, beta, in_check),
    };
    let node = assess(searcher, host, ctx, depth, alpha, beta, in_check);
    let ghost c = at(*host, *searcher);
    proof {
        assert(depth == capped(ctx.depth));
        assert(assessed(at(h0, s1), c, *ctx, depth, alpha, beta, in_check, node));
        reveal(open_searched);
    }
    let r: i32 = search_open(searcher, host, node, Ghost(ctx.depth as nat));
    proof {
        lemma_back_then(h0, c.host, *host);
    }
    r
}

/// Searches an open node.
fn search_open<H: SearchHost>(
    searcher: &mut Searcher,
    host: &mut H,
    node: Node,
    Ghost(bound): Ghost<nat>,
) -> (r: i32)
    requires
        old(searcher).valid(),
        node.wf(),
        1 <= bound,
        node.depth <= bound + 1,
    ensures
        final(searcher).goes_on(old(searcher)),
        final(searcher).keeps_pv_before(old(searcher), node.ply as int),
        is_score(r as int),
        open_searched(
            at(*old(host), *old(searcher)),
            node,
            bound,
            at(*final(host), *final(searcher)),
            r,
        ),
        taken_back(*old(host), *final(host)),
    decreases MAX_PLY - node.ply, bound, 7int,
{
    let ghost a = at(*host, *searcher);
    let ghost n0 = node;
    let mut node = node;
    let cut = cutoff_from_table(searcher, host, &node);
    proof {
        reveal(open_searched);
        reveal(kept_searched);
        reveal(pruned);
        reveal(captures_tried);
        lemma_back_same(a.host);
    }
    assert(table_cut(&a.host, a.searcher.move_rule_limit, n0, cut));
    if let Some(v) = cut {
        return v;
    }
    searcher.set_tt_pv(node.ply, node.tt_pv);
    let ghost s1 = *searcher;
    assert(s1.tt_pv_put(&a.searcher, n0.ply as int, n0.tt_pv));
    let ghost mut early: Option<i32> = None;
    if !node.in_check {
        let found = prune(searcher, host, &mut node, Ghost(bound));
        proof {
            early = found;
            assert(scores(early));
        }
        if let Some(v) = found {
            assert(at(*host, *searcher).sound());
            return v;
        }
    }
    let ghost c = at(*host, *searcher);
    assert(scores(early) && c.sound());
    let r: i32 = search_kept(searcher, host, &node, Ghost(bound));
    proof {
        lemma_back_then(a.host, c.host, *host);
    }
    r
}

/// Searches a node that was not pruned.
fn search_kept<H: SearchHost>(
    searcher: &mut Searcher,
    host: &mut H,
    node: &Node,
    Ghost(bound): Ghost<nat>,
) -> (r: i32)
    requires
        old(searcher).valid(),
        node.wf(),
        1 <= bound,
        node.depth <= bound + 1,
    ensures
        final(searcher).goes_on(old(searcher)),
        final(searcher).keeps_pv_before(old(searcher), node.ply as int),
        is_score(r as int),
        kept_searched(
            at(*old(host), *old(searcher)),
            *node,
            bound,
            at(*final(host), *final(searcher)),
            r,
        ),
        taken_back(*old(host), *final(host)),
    decreases MAX_PLY - node.ply, bound, 6int,
{
    let ghost a = at(*host, *searcher);
    let held = probcut(searcher, host, node, Ghost(bound));
    let ghost c = at(*host, *searcher);
    proof {
        reveal(kept_searched);
        reveal(captures_tried);
        reveal(moves_searched);
        assert(c.sound() && scores(held));
    }
    if let Some(v) = held {
        return v;
    }
    if let Some(v) = small_probcut(&node.tt, node.beta, node.depth) {
        return v;
    }
    let found = search_moves(searcher, host, node, Ghost(bound));
    let ghost d = at(*host, *searcher);
    let ghost r = found;
    proof {
        lemma_back_then(a.host, c.host, d.host);
    }
    let score: i32 = match found {
        Ok(p) => close_node(searcher, host, node, &p),
        Err(v) => v,
    };
    proof {
        lemma_back_same(d.host);
        lemma_back_then(a.host, d.host, *host);
        assert(results_in(d, *node, r, at(*host, *searcher), score));
    }
    score
}

/// Searches the moves of a node, the more promising ones first. An error is
/// the score of a node that is left before that is done.
#[verifier::rlimit(40)]
fn search_moves<H: SearchHost>(
    searcher: &mut Searcher,
    host: &mut H,
    node: &Node,
    Ghost(bound): Ghost<nat>,
) -> (r: Result<Progress, i32>)
    requires
        old(searcher).valid(),
        node.wf(),
        1 <= bound,
        node.depth <= bound + 1,
    ensures
        final(searcher).goes_on(old(searcher)),
        final(searcher).keeps_pv_before(old(searcher), node.ply as int),
        match r {
            Ok(p) => p.wf(node, bound),
            Err(v) => is_score(v as int) && (final(searcher).hot.stopped || (v >= node.beta
                && !decisive(v as int))),
        },
        moves_searched(
            at(*old(host), *old(searcher)),
            *node,
            bound,
            at(*final(host), *final(searcher)),
            r,
        ),
        taken_back(*old(host), *final(host)),
    decreases MAX_PLY - node.ply, bound, 5int,
{
    let ghost a = at(*host, *searcher);
    let mut moves = host.start_moves(searcher, node.tt.best_move, node.ply, node.depth);
    let mut p = Progress {
        alpha: node.alpha,
        depth: node.depth,
        best_score: -INFINITY,
        best_move: None,
        legal_moves: 0,
        quiets: Vec::new(),
        singular: singular_conditions(&node.tt, node.depth, node.in_check),
    };
    let mut left: u32 = u32::MAX;
    let ghost start = MovePoint { stage: Stage { at: at(*host, *searcher), moves }, found: p };
    proof {
        reveal(moves_reached);
        assert(nothing_found(*node, p));
        assert(a.host.starts_moves(
            a.searcher,
            node.tt.best_move,
            node.ply,
            node.depth,
            moves,
            &start.stage.at.host,
        ));
        assert(moves_started(a, *node, start));
        lemma_back_steady(a.host, start.stage.at.host);
    }
    while left > 0
        invariant
            searcher.goes_on(old(searcher)),
            searcher.keeps_pv_before(old(searcher), node.ply as int),
            a == at(*old(host), *old(searcher)),
            taken_back(a.host, *host),
            node.wf(),
            1 <= bound,
            node.depth <= bound + 1,
            p.wf(node, bound),
            p.legal_moves <= u32::MAX - left,
            moves_started(a, *node, start),
            moves_reached(
                start,
                *node,
                bound,
                (u32::MAX - left) as nat,
                MovePoint { stage: Stage { at: at(*host, *searcher), moves }, found: p },
            ),
        ensures
            p.alpha >= node.beta || left == 0,
        decreases left,
    {
        if p.alpha >= node.beta {
            break;
        }
        let ghost c = MovePoint { stage: Stage { at: at(*host, *searcher), moves }, found: p };
        let ghost n = (u32::MAX - left) as nat;
        let next = host.next_move(searcher, &mut moves);
        let ghost d = Stage { at: at(*host, *searcher), moves };
        proof {
            assert(c.stage.at.host.offers(
                c.stage.at.searcher,
                c.stage.moves,
                next,
                d.moves,
                &d.at.host,
            ));
            lemma_back_steady(c.stage.at.host, d.at.host);
            lemma_back_then(a.host, c.stage.at.host, d.at.host);
            assert(offered_at_most(n));
            assert(c.stage.sound());
            assert(c.open(*node));
        }
        let m = match next {
            Some(m) => m,
            None => {
                proof {
                    assert(runs_out(c.stage, d.at));
                    reveal(moves_reached);
                    reveal(moves_searched);
                    assert(moves_searched(a, *node, bound, d.at, Ok(p)));
                }
                return Ok(p);
            },
        };
        left -= 1;
        let taken = take_move(searcher, host, node, &mut p, &mut moves, &m, Ghost(bound));
        let ghost e = Stage { at: at(*host, *searcher), moves };
        proof {
            reveal(moves_reached);
            reveal(move_step);
            reveal(move_taken);
            assert(offered(c.stage, m, d));
            lemma_back_then(a.host, d.at.host, e.at.host);
            assert(e.sound());
        }
        match taken {
            Err(v) => {
                proof {
                    assert(move_step(c, *node, bound, e, Err(v)));
                    reveal(moves_searched);
                    assert(moves_searched(a, *node, bound, e.at, Err(v)));
                }
                return Err(v);
            },
            Ok(_) => {
                assert(move_step(c, *node, bound, e, Ok(p)));
            },
        }
    }
    proof {
        let c = MovePoint { stage: Stage { at: at(*host, *searcher), moves }, found: p };
        assert(c.stage.sound());
        reveal(moves_searched);
        reveal(moves_reached);
        assert(offered_at_most((u32::MAX - left) as nat));
        assert(moves_searched(a, *node, bound, c.stage.at, Ok(p)));
    }
    Ok(p)
}

/// Takes up a move that the game offered. An error is the score of a node that
/// is left at once.
fn take_move<H: SearchHost>(
    searcher: &mut Searcher,
    host: &mut H,
    node: &Node,
    p: &mut Progress,
    moves: &mut H::Generator,
    m: &Move,
    Ghost(bound): Ghost<nat>,
) -> (r: Result<(), i32>)
    requires
        old(searcher).valid(),
        node.wf(),
        1 <= bound,
        node.depth <= bound + 1,
        old(p).wf(node, bound),
        old(p).alpha < node.beta,
        old(p).legal_moves < u32::MAX,
    ensures
        final(searcher).goes_on(old(searcher)),
        final(searcher).keeps_pv_before(old(searcher), node.ply as int),
        final(p).wf(node, bound),
        final(p).legal_moves <= old(p).legal_moves + 1,
        r matches Err(v) ==> is_score(v as int) && (final(searcher).hot.stopped || (v >= node.beta
            && !decisive(v as int))),
        move_taken(
            Stage { at: at(*old(host), *old(searcher)), moves: *old(moves) },
            *node,
            bound,
            *old(p),
            *m,
            Stage { at: at(*final(host), *final(searcher)), moves: *final(moves) },
            match r {
                Ok(_) => Ok(*final(p)),
                Err(v) => Err(v),
            },
        ),
        taken_back(*old(host), *final(host)),
    decreases MAX_PLY - node.ply, bound, 4int,
{
    let ghost a = Stage { at: at(*host, *searcher), moves: *moves };
    let ghost q = *p;
    let new_depth: usize = node.depth - 1;
    proof {
        reveal(move_taken);
        reveal(move_made);
        lemma_back_same(a.at.host);
    }
    if is_same_step(m, &node.excluded) {
        return Ok(());
    }
    let info = look_at(host, node, m);
    let prunes = prunes_moves(host, node, p);
    let mut skipped = false;
    if prunes {
        if p.legal_moves >= lmp_count(p.depth, node.improving) {
            host.skip_quiet_moves(moves);
            proof {
                assert(a.at.host.drops_quiets(a.moves, *moves, &*host));
                lemma_back_steady(a.at.host, *host);
            }
        }
        skipped = skips_move(searcher, host, node, p, &info, new_depth);
    }
    let ghost c = Stage { at: at(*host, *searcher), moves: *moves };
    let ghost p1 = *p;
    assert(move_passed(a, c, *node, q, p1, info, prunes, skipped));
    if skipped {
        return Ok(());
    }
    let fast = host.is_legal_fast(m, node.in_check);
    if fast == Some(false) {
        return Ok(());
    }
    let r = make_and_search(searcher, host, node, p, &info, fast, Ghost(bound));
    proof {
        lemma_back_then(a.at.host, c.at.host, *host);
    }
    r
}

/// Makes a move and searches it, unless it turns out illegal. An error is the
/// score of a node that is left at once.
fn make_and_search<H: SearchHost>(
    searcher: &mut Searcher,
    host: &mut H,
    node: &Node,
    p: &mut Progress,
    info: &MoveInfo,
    known: Option<bool>,
    Ghost(bound): Ghost<nat>,
) -> (r: Result<(), i32>)
    requires
        old(searcher).valid(),
        node.wf(),
        1 <= bound,
        node.depth <= bound + 1,
        old(p).wf(node, bound),
        old(p).alpha < node.beta,
        old(p).legal_moves < u32::MAX,
    ensures
        final(searcher).goes_on(old(searcher)),
        final(searcher).keeps_pv_before(old(searcher), node.ply as int),
        final(p).wf(node, bound),
        final(p).legal_moves <= old(p).legal_moves + 1,
        r matches Err(v) ==> is_score(v as int) && (final(searcher).hot.stopped || (v >= node.beta
            && !decisive(v as int))),
        exists|undo: H::Undo, made: H| #[trigger]
            old(host).makes(info.m, undo, &made) && move_made(
                at(made, *old(searcher)),
                *node,
                bound,
                *old(p),
                *info,
                undo,
                known,
                at(*final(host), *final(searcher)),
                match r {
                    Ok(_) => Ok(*final(p)),
                    Err(v) => Err(v),
                },
            ),
        taken_back(*old(host), *final(host)),
    decreases MAX_PLY - node.ply, bound, 3int,
{
    let m = info.m;
    let ghost h0 = *host;
    let undo = host.make_move(&m);
    let illegal = known.is_none() && host.is_move_illegal();
    let ghost a = at(*host, *searcher);
    let ghost u = undo;
    let ghost p0 = *p;
    proof {
        reveal(move_made);
        reveal(move_searched);
        assert(h0.makes(info.m, u, &a.host));
        assert(found_illegal(&a.host, known, illegal));
        lemma_back_same(a.host);
    }
    if illegal {
        host.undo_move(&m, undo);
        proof {
            lemma_back_move(h0, a.host, a.host, *host, m, u);
            assert(move_made(a, *node, bound, p0, *info, u, known, at(*host, *searcher), Ok(*p)));
        }
        return Ok(());
    }
    let r = search_move(searcher, host, node, p, info, undo, Ghost(h0), Ghost(bound));
    proof {
        let end = match r {
            Ok(_) => Ok(*p),
            Err(v) => Err(v),
        };
        assert(move_made(a, *node, bound, p0, *info, u, known, at(*host, *searcher), end));
    }
    r
}

/// What a node has found after the score of a move.
pub open spec fn after_score(p: Progress, m: Move, score: i32) -> Progress {
    if score > p.best_score {
        Progress {
            best_score: score,
            best_move: Some(m),
            alpha: if score > p.alpha {
                score
            } else {
                p.alpha
            },
            ..p
        }
    } else {
        p
    }
}

/// What is learned once a move was searched: from a cutoff, by a quiet move or
/// by a capture; else that a capture did not cut off.
pub open spec fn taught(
    before: Searcher,
    noted: Searcher,
    after: Searcher,
    game: GameState,
    node: Node,
    p: Progress,
    info: MoveInfo,
    counts: bool,
) -> bool {
    let piece = info.m.piece.piece_type;
    if p.alpha >= node.beta {
        &&& noted.cutoff_noted(&before, node.ply as int, info.m, counts)
        &&& if !info.is_capture {
            after.cutoff_learned(
                &noted,
                node.ply as int,
                p.depth as int,
                info.m,
                p.quiets@,
                game.pawn_hash,
                node.in_check,
            )
        } else if info.captured is Some {
            after.capture_learned(&noted, piece, info.captured->0, p.depth as int, true)
        } else {
            after == noted
        }
    } else if info.captured is Some {
        after.capture_learned(&before, piece, info.captured->0, p.depth as int, false)
    } else {
        after == before
    }
}

/// Takes the score of a move into what a node has found, and learns from it.
fn take_score<H: SearchHost>(
    searcher: &mut Searcher,
    host: &H,
    node: &Node,
    p: &mut Progress,
    info: &MoveInfo,
    score: i32,
    counts: bool,
)
    requires
        old(searcher).valid(),
        node.wf(),
        is_score(score as int),
        1 <= old(p).depth <= MAX_PLY + 1,
    ensures
        final(searcher).goes_on(old(searcher)),
        final(searcher).keeps_pv_before(old(searcher), node.ply as int),
        *final(p) == after_score(*old(p), info.m, score),
        score_taken(
            host,
            *old(searcher),
            *node,
            *old(p),
            *info,
            score,
            counts,
            *final(searcher),
        ),
        score > old(p).best_score && score > old(p).alpha
            ==> final(searcher).pv_table@[node.ply * MAX_PLY] == Some(info.m),
{
    let ply: usize = node.ply;
    let m = info.m;
    if score > p.best_score {
        p.best_score = score;
        p.best_move = Some(m);
        if score > p.alpha {
            p.alpha = score;
            searcher.update_pv(ply, &m);
        }
    }
    let game = host.game();
    let ghost s1 = *searcher;
    let ghost mut s2 = *searcher;
    if p.alpha >= node.beta {
        searcher.note_cutoff(ply, &m, counts);
        proof {
            s2 = *searcher;
        }
        searcher.learn_from_cutoff(
            game,
            ply,
            p.depth,
            &m,
            &p.quiets,
            node.in_check,
            info.is_capture,
            info.captured,
        );
    } else {
        searcher.learn_from_miss(p.depth, &m, info.captured);
    }
    assert(taught(s1, s2, *searcher, *game, *node, *p, *info, counts));
}

/// Searches a move that was made, and takes it back. An error is the score of a
/// node that is left at once.
#[verifier::rlimit(60)]
fn search_move<H: SearchHost>(
    searcher: &mut Searcher,
    host: &mut H,
    node: &Node,
    p: &mut Progress,
    info: &MoveInfo,
    undo: H::Undo,
    Ghost(before): Ghost<H>,
    Ghost(bound): Ghost<nat>,
) -> (r: Result<(), i32>)
    requires
        old(searcher).valid(),
        node.wf(),
        1 <= bound,
        node.depth <= bound + 1,
        old(p).wf(node, bound),
        old(p).alpha < node.beta,
        old(p).legal_moves < u32::MAX,
        before.makes(info.m, undo, &*old(host)),
    ensures
        final(searcher).goes_on(old(searcher)),
        final(searcher).keeps_pv_before(old(searcher), node.ply as int),
        final(p).wf(node, bound),
        final(p).legal_moves == old(p).legal_moves + 1,
        r matches Err(v) ==> is_score(v as int) && (final(searcher).hot.stopped || (v >= node.beta
            && !decisive(v as int))),
        move_searched(
            at(*old(host), *old(searcher)),
            *node,
            bound,
            *old(p),
            *info,
            undo,
            at(*final(host), *final(searcher)),
            match r {
                Ok(_) => Ok(*final(p)),
                Err(v) => Err(v),
            },
        ),
        taken_back(before, *final(host)),
    decreases MAX_PLY - node.ply, bound, 2int,
{
    let ply: usize = node.ply;
    let m = info.m;
    let ghost p0 = *p;
    let ghost a = at(*host, *searcher);
    if info.is_quiet() {
        p.quiets.push(m);
    }
    let saved = searcher.record(ply);
    let made = Searcher::new_record(&m, node.in_check, info.is_capture);
    let ghost s0 = *searcher;
    proof {
        searcher.lemma_record(ply as int);
        s0.bearings().lemma_overwritten(ply as int, made, saved);
        s0.bearings().lemma_overwritten(ply as int, made, made);
    }
    searcher.put_record(ply, &made);
    p.legal_moves += 1;
    let ghost s1 = *searcher;
    let ghost p1 = *p;
    assert(move_counted(p0, p1, *info));
    let mut extension: i32 = 0;
    let mut undo = undo;
    let ghost u0 = undo;
    let enough: usize = if node.tt_pv {
        7
    } else {
        6
    };
    let due = p.singular.is_some() && info.is_tt_move && !node.is_pv() && node.excluded.is_none()
        && p.depth >= enough && !searcher.shuffles_now(host.game(), &m, ply);
    assert(singular_due(&a.host, s1, *node, p1, *info, due));
    let ghost mut base = before;
    let ghost mut tested: (Point<H>, Point<H>, i32, i32) = (a, a, 0, 0);
    proof {
        lemma_back_same(before);
        lemma_back_same(a.host);
    }
    if let (true, Some(terms)) = (due, p.singular) {
        p.singular = None;
        let limit: i32 = singular_beta(terms.0, p.depth, searcher.tt_reliability_now());
        assert(limit == singular_limit(s1, p1));
        host.undo_move(&m, undo);
        let ghost aside = *host;
        proof {
            lemma_back_move(before, a.host, a.host, aside, m, u0);
        }
        let value: i32 = search_without(
            searcher,
            host,
            node,
            &m,
            &saved,
            &made,
            limit,
            terms.1,
            Ghost(bound),
        );
        let ghost s2 = *searcher;
        let ghost back = *host;
        let ghost c: Point<H>;
        let ghost d: Point<H>;
        proof {
            let (c1, d1) = choose|c: Point<H>, d: Point<H>|
                #![trigger c.sound(), d.sound()]
                c.sound() && d.sound() && c.host == aside && c.searcher.record_put(
                    &s1,
                    ply as int,
                    saved,
                ) && searched(c, without(*node, m, limit, terms.1), d, value) && d.host == back
                    && s2.record_put(&d.searcher, ply as int, made);
            c = c1;
            d = d1;
            lemma_back_then(before, aside, back);
            base = back;
        }
        undo = host.make_move(&m);
        let ghost e = at(*host, *searcher);
        let ghost u1 = undo;
        proof {
            tested = (c, d, limit, value);
            assert(set_aside(at(a.host, s1), ply, m, u0, saved, c));
            assert(taken_up(d, ply, m, u1, made, e));
            assert(is_score(value as int));
            lemma_back_same(e.host);
        }
        if searcher.hot.stopped {
            host.undo_move(&m, undo);
            searcher.put_record(ply, &saved);
            proof {
                let b = at(*host, *searcher);
                lemma_back_move(back, e.host, e.host, b.host, m, u1);
                lemma_back_then(before, back, b.host);
                reveal(move_tested);
                assert(move_tested(e, saved, *node, p1, *info, u1, limit, value, b, Err(0)));
                lemma_tested_move(
                    a,
                    s1,
                    *node,
                    bound,
                    p0,
                    p1,
                    *info,
                    u0,
                    c,
                    d,
                    u1,
                    e,
                    value,
                    b,
                    Err(0),
                );
            }
            return Err(0);
        }
        match judge_singular(
            value,
            limit,
            node.beta,
            p.depth,
            node.tt_capture,
            node.correction(),
            node.tt.value,
            node.is_cut(),
        ) {
            Singular::Extend(e) => {
                extension = e;
                p.depth += 1;
            },
            Singular::MultiCut => {
                searcher.learn_from_multi_cut(p.depth);
                let ghost s3 = *searcher;
                host.undo_move(&m, undo);
                searcher.put_record(ply, &saved);
                proof {
                    let b = at(*host, *searcher);
                    lemma_back_move(back, e.host, e.host, b.host, m, u1);
                    lemma_back_then(before, back, b.host);
                    assert(s3.multi_cut_learned(&e.searcher, p1.depth as int));
                    reveal(move_tested);
                    assert(move_tested(
                        e,
                        saved,
                        *node,
                        p1,
                        *info,
                        u1,
                        limit,
                        value,
                        b,
                        Err(value),
                    ));
                    lemma_tested_move(
                        a,
                        s1,
                        *node,
                        bound,
                        p0,
                        p1,
                        *info,
                        u0,
                        c,
                        d,
                        u1,
                        e,
                        value,
                        b,
                        Err(value),
                    );
                }
                return Err(value);
            },
            Singular::Plain(e) => {
                extension = e;
            },
        }
    }
    let ghost e = at(*host, *searcher);
    let ghost p3 = *p;
    let ghost u = undo;
    proof {
        assert(base.makes(m, u, &e.host));
        assert(searcher.continues(&s0));
    }
    let r = search_and_undo(
        searcher,
        host,
        node,
        p,
        info,
        undo,
        &saved,
        extension,
        Ghost(base),
        Ghost(s0),
        Ghost(bound),
    );
    proof {
        let b = at(*host, *searcher);
        let end = match r {
            Ok(_) => Ok(*p),
            Err(v) => Err(v),
        };
        lemma_back_then(before, base, b.host);
        if due {
            let (c, d, limit, value) = tested;
            lemma_child_tested(
                e,
                saved,
                *node,
                p1,
                p3,
                *info,
                u,
                limit,
                value,
                extension,
                b,
                end,
            );
            lemma_tested_move(
                a,
                s1,
                *node,
                bound,
                p0,
                p1,
                *info,
                u0,
                c,
                d,
                u,
                e,
                value,
                b,
                end,
            );
        } else {
            lemma_plain_move(a, s1, *node, bound, p0, p1, *info, u0, b, end);
        }
    }
    r
}

/// Searches the position after a move, takes the move back and takes up its score.
/// An error is the score of a node that is left at once.
fn search_and_undo<H: SearchHost>(
    searcher: &mut Searcher,
    host: &mut H,
    node: &Node,
    p: &mut Progress,
    info: &MoveInfo,
    undo: H::Undo,
    saved: &PlyRecord,
    extension: i32,
    Ghost(before): Ghost<H>,
    Ghost(s0): Ghost<Searcher>,
    Ghost(bound): Ghost<nat>,
) -> (r: Result<(), i32>)
    requires
        s0.valid(),
        *saved == s0.record_of(node.ply as int),
        old(searcher).continues(&s0),
        old(searcher).bearings() == s0.bearings().at_ply(
            node.ply as int,
            Searcher::record_for(info.m, node.in_check, info.is_capture),
        ),
        node.wf(),
        old(p).wf(node, bound),
        old(p).alpha < node.beta,
        1 <= old(p).legal_moves,
        -3 <= extension <= 3,
        before.makes(info.m, undo, &*old(host)),
    ensures
        final(searcher).goes_on(&s0),
        final(searcher).keeps_pv_before(old(searcher), node.ply as int),
        final(p).wf(node, bound),
        final(p).legal_moves == old(p).legal_moves,
        r matches Err(v) ==> is_score(v as int) && final(searcher).hot.stopped,
        child_taken(
            at(*old(host), *old(searcher)),
            *saved,
            *node,
            *old(p),
            *info,
            undo,
            extension,
            at(*final(host), *final(searcher)),
            match r {
                Ok(_) => Ok(*final(p)),
                Err(v) => Err(v),
            },
        ),
        taken_back(before, *final(host)),
    decreases MAX_PLY - node.ply, bound, 1int,
{
    let ply: usize = node.ply;
    let m = info.m;
    let ghost a = at(*host, *searcher);
    let ghost p0 = *p;
    let ghost u = undo;
    let left_as = PlyRecord { in_check: node.in_check, capture: info.is_capture, ..*saved };
    proof {
        let made = Searcher::record_for(info.m, node.in_check, info.is_capture);
        s0.lemma_record(ply as int);
        s0.bearings().lemma_overwritten(ply as int, made, *saved);
        s0.bearings().lemma_overwritten(ply as int, made, left_as);
    }
    let found = search_child(searcher, host, node, p, info, extension, Ghost(bound));
    let ghost c = at(*host, *searcher);
    host.undo_move(&m, undo);
    proof {
        lemma_back_move(before, a.host, c.host, *host, m, u);
        assert(c.sound() && scores(found));
        assert(c.host.unmakes(info.m, u, &*host));
    }
    let score: i32 = match found {
        Some(v) => v,
        None => {
            searcher.put_record(ply, &left_as);
            proof {
                assert(left_as == dropped_record(*saved, *node, *info));
                lemma_child_taken(
                    a,
                    *saved,
                    *node,
                    p0,
                    *info,
                    u,
                    extension,
                    c,
                    found,
                    *searcher,
                    at(*host, *searcher),
                    Ok(p0),
                );
            }
            return Ok(());
        },
    };
    searcher.put_record(ply, saved);
    let ghost s2 = *searcher;
    assert(s2.record_put(&c.searcher, ply as int, *saved));
    if searcher.hot.stopped {
        proof {
            lemma_child_taken(
                a,
                *saved,
                *node,
                p0,
                *info,
                u,
                extension,
                c,
                found,
                s2,
                at(*host, *searcher),
                Err(p0.best_score),
            );
        }
        return Err(p.best_score);
    }
    take_score(searcher, host, node, p, info, score, extension < 2 || node.is_pv());
    proof {
        lemma_child_taken(
            a,
            *saved,
            *node,
            p0,
            *info,
            u,
            extension,
            c,
            found,
            s2,
            at(*host, *searcher),
            Ok(*p),
        );
    }
    Ok(())
}

/// The search of a node without one move, against a limit.
pub open spec fn without(node: Node, m: Move, limit: i32, depth: usize) -> NegamaxContext {
    NegamaxContext {
        depth,
        ply: node.ply,
        alpha: (limit - 1) as i32,
        beta: limit,
        allow_null: false,
        node_type: if node.node_type is Cut {
            NodeType::Cut
        } else {
            NodeType::All
        },
        was_null_move: false,
        excluded_move: Some(m),
    }
}

fn without_ctx(node: &Node, m: &Move, limit: i32, depth: usize) -> (r: NegamaxContext)
    requires
        limit > i32::MIN,
    ensures
        r == without(*node, *m, limit, depth),
{
    NegamaxContext {
        depth,
        ply: node.ply,
        alpha: limit - 1,
        beta: limit,
        allow_null: false,
        node_type: if node.is_cut() {
            NodeType::Cut
        } else {
            NodeType::All
        },
        was_null_move: false,
        excluded_move: Some(*m),
    }
}

/// Searches a node without one move, at the ply and from the position of the
/// node itself.
fn search_without<H: SearchHost>(
    searcher: &mut Searcher,
    host: &mut H,
    node: &Node,
    m: &Move,
    saved: &PlyRecord,
    made: &PlyRecord,
    limit: i32,
    depth: usize,
    Ghost(bound): Ghost<nat>,
) -> (r: i32)
    requires
        old(searcher).valid(),
        node.wf(),
        depth < bound,
        -MATE_SCORE - 4000 <= limit <= MATE_SCORE + 4000,
        old(searcher).bearings().at_ply(node.ply as int, *made) == old(searcher).bearings(),
    ensures
        final(searcher).goes_on(old(searcher)),
        final(searcher).keeps_pv_before(old(searcher), node.ply as int),
        is_score(r as int),
        exists|c: Point<H>, d: Point<H>|
            #![trigger c.sound(), d.sound()]
            c.sound() && d.sound() && c.host == *old(host) && c.searcher.record_put(
                old(searcher),
                node.ply as int,
                *saved,
            ) && searched(c, without(*node, *m, limit, depth), d, r) && d.host == *final(host)
                && final(searcher).record_put(&d.searcher, node.ply as int, *made),
        taken_back(*old(host), *final(host)),
    decreases MAX_PLY - node.ply, bound, 0int,
{
    let ply: usize = node.ply;
    proof {
        searcher.lemma_record(ply as int);
        searcher.bearings().lemma_overwritten(ply as int, *saved, *made);
    }
    searcher.put_record(ply, saved);
    let ghost c = at(*host, *searcher);
    let value: i32 = negamax(searcher, host, &without_ctx(node, m, limit, depth));
    let ghost d = at(*host, *searcher);
    assert(c.sound() && d.sound());
    searcher.put_record(ply, made);
    value
}

/// The search of the position after a move, with a window of the node.
pub open spec fn after_move(
    node: Node,
    alpha: i32,
    beta: i32,
    depth: int,
    node_type: NodeType,
) -> NegamaxContext {
    NegamaxContext {
        depth: depth as usize,
        ply: (node.ply + 1) as usize,
        alpha: (-beta) as i32,
        beta: (-alpha) as i32,
        allow_null: true,
        node_type,
        was_null_move: false,
        excluded_move: None,
    }
}

fn child_ctx(
    node: &Node,
    alpha: i32,
    beta: i32,
    depth: usize,
    node_type: NodeType,
) -> (r: NegamaxContext)
    requires
        node.wf(),
        is_score(alpha as int),
        is_score(beta as int),
    ensures
        r == after_move(*node, alpha, beta, depth as int, node_type),
{
    NegamaxContext {
        depth,
        ply: node.ply + 1,
        alpha: -beta,
        beta: -alpha,
        allow_null: true,
        node_type,
        was_null_move: false,
        excluded_move: None,
    }
}

/// The first move is searched with the full window, one ply less deep plus what
/// the move is extended by.
pub open spec fn first_search(node: Node, p: Progress, extension: int) -> NegamaxContext {
    after_move(
        node,
        p.alpha,
        node.beta,
        max(p.depth - 1 + extension, 0),
        child_type(node.node_type, true),
    )
}

/// A later move is searched with a null window first.
pub open spec fn later_search(node: Node, p: Progress, depth: int) -> NegamaxContext {
    after_move(node, p.alpha, (p.alpha + 1) as i32, depth, child_type(node.node_type, false))
}

/// A later move that beat alpha is searched again with the full window; the
/// deeper, the more the first score promised.
pub open spec fn second_search(
    node: Node,
    p: Progress,
    info: MoveInfo,
    extension: int,
    depth: int,
    score: int,
) -> NegamaxContext {
    after_move(
        node,
        p.alpha,
        node.beta,
        pv_floor(
            research(p.depth - 1 + extension, depth, score, p.best_score as int),
            node.node_type is PV && info.is_tt_move,
            node.tt,
        ),
        if node.node_type is PV {
            NodeType::PV
        } else {
            child_type(node.node_type, false)
        },
    )
}

fn first_ctx(node: &Node, p: &Progress, extension: i32) -> (r: NegamaxContext)
    requires
        node.wf(),
        is_score(p.alpha as int),
        p.depth <= MAX_PLY + 1,
        -3 <= extension <= 3,
    ensures
        r == first_search(*node, *p, extension as int),
{
    child_ctx(
        node,
        p.alpha,
        node.beta,
        max_i32(p.depth as i32 - 1 + extension, 0) as usize,
        child_node_type(node.node_type, true),
    )
}

fn later_ctx(node: &Node, p: &Progress, depth: usize) -> (r: NegamaxContext)
    requires
        node.wf(),
        is_score(p.alpha as int),
        p.alpha < INFINITY,
    ensures
        r == later_search(*node, *p, depth as int),
{
    child_ctx(node, p.alpha, p.alpha + 1, depth, child_node_type(node.node_type, false))
}

fn second_ctx(
    node: &Node,
    p: &Progress,
    info: &MoveInfo,
    extension: i32,
    depth: usize,
    score: i32,
) -> (r: NegamaxContext)
    requires
        node.wf(),
        is_score(p.alpha as int),
        is_score(p.best_score as int),
        is_score(score as int),
        p.depth <= MAX_PLY + 1,
        depth <= 2 * MAX_PLY,
        -3 <= extension <= 3,
    ensures
        r == second_search(
            *node,
            *p,
            *info,
            extension as int,
            depth as int,
            score as int,
        ),
{
    let again: usize = research_depth(
        p.depth as i32 - 1 + extension,
        depth,
        score,
        p.best_score,
    );
    child_ctx(
        node,
        p.alpha,
        node.beta,
        pv_depth(again, node.is_pv() && info.is_tt_move, &node.tt),
        if node.is_pv() {
            NodeType::PV
        } else {
            child_node_type(node.node_type, false)
        },
    )
}

/// Whether the score of a null window asks for another search.
pub open spec fn asks_again(score: int, alpha: int, beta: int, reduction: int) -> bool {
    score > alpha && (reduction > 0 || score < beta)
}

pub fn is_search_due(score: i32, alpha: i32, beta: i32, reduction: i32) -> (r: bool)
    ensures
        r == asks_again(score as int, alpha as int, beta as int, reduction as int),
{
    score > alpha && (reduction > 0 || score < beta)
}

/// Searches the position after a move: the first one with the full window, a
/// later one with a null window and reduced depth first. Nothing, where the
/// move is dropped for its history.
fn search_child<H: SearchHost>(
    searcher: &mut Searcher,
    host: &mut H,
    node: &Node,
    p: &Progress,
    info: &MoveInfo,
    extension: i32,
    Ghost(bound): Ghost<nat>,
) -> (r: Option<i32>)
    requires
        old(searcher).valid(),
        node.wf(),
        p.wf(node, bound),
        p.alpha < node.beta,
        1 <= p.legal_moves,
        -3 <= extension <= 3,
    ensures
        final(searcher).goes_on(old(searcher)),
        final(searcher).keeps_pv_before(old(searcher), node.ply as int),
        r matches Some(v) ==> is_score(v as int),
        child_searched(
            at(*old(host), *old(searcher)),
            *node,
            *p,
            *info,
            extension,
            at(*final(host), *final(searcher)),
            r,
        ),
        taken_back(*old(host), *final(host)),
    decreases MAX_PLY - node.ply, bound, 0int,
{
    let ply: usize = node.ply;
    let ghost h0 = *host;
    let ghost s0 = *searcher;
    let base: i32 = p.depth as i32 - 1 + extension;
    proof {
        reveal(child_searched);
        reveal(searched);
        lemma_back_same(h0);
    }
    if p.legal_moves == 1 {
        let v: i32 = negamax(searcher, host, &first_ctx(node, p, extension));
        assert(is_score(v as int));
        return Some(-v);
    }
    let reduction: i32 = reduction_for(searcher, host, node, p, info);
    let mut new_depth: i32 = base - reduction;
    if may_prune_leaf(
        info.is_quiet(),
        info.gives_check,
        node.in_check,
        node.is_pv(),
        p.depth,
        p.legal_moves,
        p.best_score,
    ) {
        let pawn_hash: u64 = host.game().pawn_hash;
        let value: i32 = searcher.history_of(&info.m) + searcher.pawn_history_of(
            pawn_hash,
            &info.m,
        );
        match judge_leaf(new_depth, value) {
            LeafVerdict::Drop => {
                assert(leaf_judged(&h0, s0, *node, *p, *info, base - reduction, None));
                return None;
            },
            LeafVerdict::Keep(d) => {
                new_depth = d;
            },
        }
    }
    let depth: usize = max_i32(new_depth, 0) as usize;
    assert(leaf_judged(&h0, s0, *node, *p, *info, base - reduction, Some(depth as int)));
    searcher.set_reduction(ply, reduction);
    let ghost s1 = *searcher;
    let reply: i32 = negamax(searcher, host, &later_ctx(node, p, depth));
    let ghost c = at(*host, *searcher);
    proof {
        assert(s1.reduction_put(&s0, ply as int, reduction));
        assert(c.sound());
        assert(is_score(reply as int));
    }
    let mut score: i32 = -reply;
    if is_search_due(score, p.alpha, node.beta, reduction) {
        let again: i32 = negamax(
            searcher,
            host,
            &second_ctx(node, p, info, extension, depth, score),
        );
        let ghost s2 = *searcher;
        score = -again;
        if reduction > 0 && info.is_quiet() {
            searcher.learn_from_research(ply, p.depth, &info.m);
        }
        proof {
            lemma_back_then(h0, c.host, *host);
            assert(is_score(again as int));
            assert(researched(s2, *searcher, *node, *p, *info, reduction));
        }
    }
    Some(score)
}

/// What the reduction of a late move depends on.
pub open spec fn reduction_inputs(
    searcher: Searcher,
    game: GameState,
    node: Node,
    m: Move,
    base: i32,
) -> LmrInputs {
    let piece = m.piece.piece_type.index_spec();
    let to = square_slot(m.to.x, m.to.y);
    LmrInputs {
        base,
        improving: node.improving,
        history: (searcher.history@[piece]@[to] + searcher.pawn_history@[pawn_slot(
            game.pawn_hash,
            piece,
            to,
        )]) as i32,
        correction: (node.static_eval - node.raw_eval) as i32,
        shuffling: searcher.shuffles(game, m, node.ply as int),
        next_cutoffs: searcher.cutoff_cnt@[node.ply + 1],
        all_node: node.node_type is All,
        tt_move_history: searcher.tt_move_history,
    }
}

/// A late move may be reduced by this much.
pub open spec fn reduced_by<H: SearchHost>(
    host: &H,
    searcher: Searcher,
    node: Node,
    p: Progress,
    info: MoveInfo,
    r: i32,
) -> bool {
    if reduces(
        p.depth as int,
        p.legal_moves as int,
        node.in_check,
        info.is_capture,
        info.gives_check && (info.m.piece.piece_type is Queen || info.m.piece.piece_type is Amazon),
    ) {
        exists|game: &GameState, base: i32|
            #![trigger lmr(reduction_inputs(searcher, *game, node, info.m, base), p.depth as int)]
            call_ensures(H::game, (host,), game) && call_ensures(
                H::get_lmr,
                (host, p.depth, p.legal_moves),
                base,
            ) && r == lmr(reduction_inputs(searcher, *game, node, info.m, base), p.depth as int)
    } else {
        r == 0
    }
}

fn reduction_for<H: SearchHost>(
    searcher: &Searcher,
    host: &H,
    node: &Node,
    p: &Progress,
    info: &MoveInfo,
) -> (r: i32)
    requires
        searcher.valid(),
        node.wf(),
        1 <= p.depth <= MAX_PLY + 1,
    ensures
        0 <= r <= MAX_PLY,
        reduced_by(host, *searcher, *node, *p, *info, r),
{
    let piece = info.m.piece.piece_type;
    let queen_check = info.gives_check && (piece == PieceType::Queen || piece
        == PieceType::Amazon);
    if !should_reduce(p.depth, p.legal_moves, node.in_check, info.is_capture, queen_check) {
        return 0;
    }
    let game = host.game();
    let base: i32 = host.get_lmr(p.depth, p.legal_moves);
    let r: i32 = lmr_reduction(
        LmrInputs {
            base,
            improving: node.improving,
            history: searcher.history_of(&info.m) + searcher.pawn_history_of(
                game.pawn_hash,
                &info.m,
            ),
            correction: node.correction(),
            shuffling: searcher.shuffles_now(game, &info.m, node.ply),
            next_cutoffs: searcher.cutoffs_at(node.ply + 1),
            all_node: node.node_type == NodeType::All,
            tt_move_history: searcher.tt_reliability_now(),
        },
        p.depth,
    );
    assert(r == lmr(reduction_inputs(*searcher, *game, *node, info.m, base), p.depth as int));
    r
}

/// The score of a position without legal moves: lost where the side to move is
/// mated or has no pieces left, else drawn.
pub open spec fn without_moves<H: SearchHost>(
    host: &H,
    in_check: bool,
    ply: int,
    score: int,
) -> bool {
    exists|mated: bool, game: &GameState, pieces: bool|
        #![trigger
            mates(host, in_check, mated),
            call_ensures(H::has_pieces, (host, game.turn), pieces)
        ]
        mates(host, in_check, mated) && call_ensures(H::game, (host,), game) && call_ensures(
            H::has_pieces,
            (host, game.turn),
            pieces,
        ) && score == terminal_score(mated, !pieces, ply)
}

/// What a node leaves behind: its score, its best move and the bound that the
/// score is.
pub struct Outcome {
    pub score: i32,
    pub best_move: Option<Move>,
    pub flag: TTFlag,
}

/// A best move is quiet: it neither captures nor promotes. Having none counts
/// as quiet.
pub open spec fn quiet_best(game: GameState, best_move: Option<Move>, quiet: bool) -> bool {
    match best_move {
        Some(m) => if m.promotion is Some {
            !quiet
        } else {
            takes_piece(game, m, !quiet)
        },
        None => quiet,
    }
}

/// What the table is told of a closed node.
pub open spec fn closing_entry(
    searcher: Searcher,
    node: Node,
    p: Progress,
    o: Outcome,
) -> StoreContext {
    StoreContext {
        hash: node.hash,
        depth: (if p.legal_moves == 0 {
            min(p.depth + 6, MAX_PLY - 1)
        } else {
            p.depth as int
        }) as usize,
        flag: o.flag,
        score: o.score,
        static_eval: node.raw_eval,
        is_pv: node.tt_pv || (o.score <= node.alpha && node.ply > 0
            && searcher.tt_pv_stack@[node.ply - 1]),
        best_move: o.best_move,
        ply: node.ply,
    }
}

/// What a node leaves behind once its moves were searched with a score.
pub open spec fn outcome(node: Node, p: Progress, score: i32) -> Outcome {
    Outcome {
        score,
        best_move: if p.legal_moves == 0 {
            None
        } else {
            p.best_move
        },
        flag: flag_of(score as int, node.alpha as int, node.beta as int),
    }
}

/// What is learned when a node is closed: how reliable the table move was, off
/// the principal variation; a reward for the opponent's move, where the node
/// failed low; and the error of the evaluation, where the result shows it.
pub open spec fn lessons(
    before: Searcher,
    first: Searcher,
    second: Searcher,
    after: Searcher,
    game: GameState,
    quiet: bool,
    node: Node,
    p: Progress,
    o: Outcome,
) -> bool {
    &&& if !(node.node_type is PV) && o.best_move is Some {
        first.best_learned(
            &before,
            node.tt.best_move is Some && (node.tt.best_move->0).from == (o.best_move->0).from && (
            node.tt.best_move->0).to == (o.best_move->0).to,
        )
    } else {
        first == before
    }
    &&& if o.score <= node.alpha && p.legal_moves > 0 && node.ply > 0 {
        second.fail_low_learned(
            &first,
            node.ply as int,
            p.depth as int,
            game.pawn_hash,
            node.in_check,
        )
    } else {
        second == first
    }
    &&& quiet_best(game, o.best_move, quiet)
    &&& if !node.in_check && quiet && teaches(o.flag, o.score as int, node.raw_eval as int) {
        after.correction_learned(
            &second,
            game,
            node.ply as int,
            p.depth as int,
            o.score - node.raw_eval,
            second.last_move_index(node.ply as int),
        )
    } else {
        after == second
    }
}

/// Closes a node whose moves were searched: its score, what the table keeps of
/// it and what is learned from it.
fn close_node<H: SearchHost>(
    searcher: &mut Searcher,
    host: &mut H,
    node: &Node,
    p: &Progress,
) -> (r: i32)
    requires
        old(searcher).valid(),
        node.wf(),
        is_score(p.alpha as int),
        is_score(p.best_score as int),
        1 <= p.depth <= MAX_PLY + 1,
    ensures
        final(searcher).goes_on(old(searcher)),
        final(searcher).keeps_pv_before(old(searcher), node.ply as int),
        is_score(r as int),
        node_closed(
            at(*old(host), *old(searcher)),
            *node,
            *p,
            at(*final(host), *final(searcher)),
            r,
        ),
        taken_back(*old(host), *final(host)),
{
    let ghost h0 = *host;
    let ghost s0 = *searcher;
    let mut best_score: i32 = p.best_score;
    let mut best_move = p.best_move;
    if p.legal_moves == 0 {
        let checkmate = node.in_check && host.must_escape_check();
        let game = host.game();
        let no_pieces = !host.has_pieces(game.turn);
        best_score = score_without_moves(checkmate, no_pieces, node.ply);
        best_move = None;
        assert(mates(&h0, node.in_check, checkmate));
        assert(without_moves(&h0, node.in_check, node.ply as int, best_score as int));
    }
    best_score = soften_fail_high(best_score, p.alpha, node.beta, p.depth);
    let flag = tt_flag(best_score, node.alpha, node.beta);
    let failed_low = best_score <= node.alpha;
    let stored_depth: usize = if p.legal_moves == 0 {
        if p.depth + 6 < MAX_PLY - 1 {
            p.depth + 6
        } else {
            MAX_PLY - 1
        }
    } else {
        p.depth
    };
    let entry = StoreContext {
        hash: node.hash,
        depth: stored_depth,
        flag,
        score: best_score,
        static_eval: node.raw_eval,
        is_pv: node.tt_pv || (failed_low && searcher.parent_is_tt_pv(node.ply)),
        best_move,
        ply: node.ply,
    };
    assert(entry == closing_entry(s0, *node, *p, outcome(*node, *p, best_score)));
    store_tt_with_shared(host, &entry);
    let game = host.game();
    if !node.is_pv() {
        if let Some(bm) = best_move {
            let matched = match node.tt.best_move {
                Some(tm) => tm.from == bm.from && tm.to == bm.to,
                None => false,
            };
            searcher.learn_from_best(matched);
        }
    }
    let ghost first = *searcher;
    if failed_low && p.legal_moves > 0 && node.ply > 0 {
        searcher.learn_from_fail_low(game, node.ply, p.depth, node.in_check);
    }
    let ghost second = *searcher;
    let quiet = match best_move {
        Some(m) => m.promotion.is_none() && !is_taking(game, &m),
        None => true,
    };
    if !node.in_check && quiet && should_update_correction(flag, best_score, node.raw_eval) {
        searcher.learn_from_result(game, node.ply, p.depth, node.raw_eval, best_score);
    }
    assert(lessons(
        s0,
        first,
        second,
        *searcher,
        *game,
        quiet,
        *node,
        *p,
        outcome(*node, *p, best_score),
    ));
    best_score
}

} // verus!
