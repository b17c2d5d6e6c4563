//! What a search notes on its way: the moves made, the nodes counted, the errors of the
//! evaluation, and what the table is told.
use crate::arith::clamp;
use crate::board::Coordinate;
use crate::game::GameState;
use crate::moves::Move;
use crate::search::decisions::{bonus_for, quiet_depth, TtView};
use crate::search::entry::rule_limit_of;
use crate::search::host::{table_told, SearchHost};
use crate::search::learning::{bump, cont_bumped, cont_entry, differs, low_penalized, weighted};
use crate::search::memory::earlier_moves_count_less;
use crate::search::multipv::{best_first, line_inserted, line_taken, present, LineTerms, LinesPoint};
use crate::search::node::{clocked, move_judged, null_verdict, MoveInfo, Node, Progress};
use crate::search::ordering::{coord_slot, square_slot};
use crate::search::pacing::lines_stay_in_order;
use crate::search::quiescence::{last_target, quiet_counted, standing_told, QuietProgress};
use crate::search::results::capture_settled;
use crate::search::root::{root_kept, RootFound};
use crate::search::searcher::{
    bonus_raises_history, corr_slot, corrections_move_toward_results, depth_weight, gravity,
    history_stays_within_limits, minor_mix, nonpawn_hash, ClockReading, Searcher, SearcherHot,
};
use crate::search::stacks::PlyRecord;
use crate::search::steps::Point;
use crate::search::{NegamaxContext, PVLine, StoreContext};
use vstd::prelude::*;

verus! {

/// A move that is noted at a ply is the opponent's last move at the next, and the other
/// plies keep theirs.
pub proof fn noted_moves_are_the_last_ones(
    before: Searcher,
    after: Searcher,
    ply: int,
    m: Move,
    in_check: bool,
    capture: bool,
)
    requires
        before.wf(),
        0 <= ply < 63,
        after.record_put(&before, ply, Searcher::record_for(m, in_check, capture)),
    ensures
        last_target(after, ply + 1) == Some(m.to),
        after.move_history@[ply] == Some(m),
        after.moved_piece_history@[ply] == m.piece.piece_type.index_spec(),
        after.in_check_history@[ply] == in_check,
        after.capture_history_stack@[ply] == capture,
        forall|q: int|
            0 <= q < 64 && q != ply ==> #[trigger] after.move_history@[q]
                == before.move_history@[q],
{
}

/// After a null move there is no last move to recapture on.
pub proof fn null_moves_leave_no_target(before: Searcher, after: Searcher, ply: int)
    requires
        before.wf(),
        0 <= ply < 63,
        after.record_put(
            &before,
            ply,
            PlyRecord { made: None, ..before.record_of(ply) },
        ),
    ensures
        last_target(after, ply + 1) is None,
{
}

/// Entering a node counts it once, forgets its principal variation, and counts the plies
/// since the last null move.
pub proof fn nodes_are_counted_once(
    before: Searcher,
    after: Searcher,
    ply: int,
    was_null: bool,
)
    requires
        before.wf(),
        0 <= ply < 64,
        before.hot.nodes < u64::MAX,
        after.node_entered(&before, ply, was_null),
    ensures
        after.hot.nodes == before.hot.nodes + 1,
        after.pv_length@[ply] == 0,
        after.hot.stopped == before.hot.stopped,
        was_null ==> after.plies_from_null@[ply] == 1,
        !was_null && ply > 0 && before.plies_from_null@[ply - 1] < 255
            ==> after.plies_from_null@[ply] == before.plies_from_null@[ply - 1] + 1,
        !was_null && ply == 0 ==> after.plies_from_null@[ply] == 255,
        ply + 2 < 64 ==> after.cutoff_cnt@[ply + 2] == 0,
        after.killers == before.killers,
        after.history == before.history,
{
}

proof fn lemma_bump(t: Seq<i32>, k: int, adj: int)
    requires
        forall|i: int| 0 <= i < t.len() ==> -16384 <= #[trigger] t[i] <= 16384,
        0 < adj,
        0 <= k < t.len(),
    ensures
        bump(t, k, adj).len() == t.len(),
        forall|i: int|
            0 <= i < t.len() ==> -16384 <= #[trigger] bump(t, k, adj)[i] <= 16384 && t[i]
                <= bump(t, k, adj)[i],
        t[k] < 16384 ==> bump(t, k, adj)[k] > t[k],
{
    let e = t[k] as int;
    assert(-16384 <= t[k] <= 16384);
    history_stays_within_limits(e, adj);
    if e < 16384 {
        bonus_raises_history(e, adj);
    } else {
        let b = clamp(adj, -16384, 16384);
        assert(16384 * b / 16384 == b);
        assert(gravity(e, adj) == e);
    }
}

proof fn lemma_cont_entries(s: Searcher, k: int, ply: int, m: Move)
    requires
        0 <= k < 3,
    ensures
        s.cont_base(k, ply) matches Some(b) ==> 0 <= cont_entry(b, m) < 12_582_912,
{
    lemma_coord(m.from);
    lemma_coord(m.to);
    if let Some(prev) = s.move_history@[ply] {
        lemma_coord(prev.to);
    }
}

proof fn lemma_coord(c: Coordinate)
    ensures
        0 <= coord_slot(c.x, c.y) < 32,
{
    let v = c.x ^ c.y;
    assert(0 <= (v & 31) <= 31) by (bit_vector);
}

proof fn lemma_cont_bumped(t: Seq<i32>, base: Option<int>, m: Move, adj: int)
    requires
        forall|i: int| 0 <= i < t.len() ==> -16384 <= #[trigger] t[i] <= 16384,
        0 < adj,
        base matches Some(b) ==> 0 <= cont_entry(b, m) < t.len(),
    ensures
        cont_bumped(t, base, m, adj).len() == t.len(),
        forall|i: int|
            0 <= i < t.len() ==> -16384 <= #[trigger] cont_bumped(t, base, m, adj)[i] <= 16384
                && t[i] <= cont_bumped(t, base, m, adj)[i],
        base matches Some(b) ==> (t[cont_entry(b, m)] < 16384 ==> cont_bumped(
            t,
            base,
            m,
            adj,
        )[cont_entry(b, m)] > t[cont_entry(b, m)]),
{
    if let Some(b) = base {
        lemma_bump(t, cont_entry(b, m), adj);
    }
}

/// A move that is rewarded is preferred more after the moves before it: its entries rise,
/// and none falls.
pub proof fn rewards_are_remembered_after_earlier_moves(
    s: Searcher,
    ply: int,
    m: Move,
    reward: int,
    far: bool,
)
    requires
        s.wf(),
        0 <= ply <= 64,
        reward >= 3,
    ensures
        ({
            let after = s.cont_adjusted(ply, m, reward, far);
            let before = s.cont_history@;
            &&& after.len() == before.len()
            &&& forall|i: int| 0 <= i < before.len() ==> before[i] <= #[trigger] after[i]
            &&& ply >= 1 && s.cont_base(0, ply - 1) is Some ==> {
                let i = cont_entry(s.cont_base(0, ply - 1)->0, m);
                before[i] < 16384 ==> after[i] > before[i]
            }
            &&& ply == 0 ==> after == before
        }),
{
    let t0 = s.cont_history@;
    let b0 = s.cont_base(0, ply - 1);
    let b1 = s.cont_base(1, ply - 2);
    let b2 = s.cont_base(2, ply - 4);
    earlier_moves_count_less(reward);
    let w0 = weighted(reward, 0);
    let w1 = weighted(reward, 1);
    let w2 = weighted(reward, 2);
    assert(w2 > 0 && w1 > 0 && w0 > 0);
    lemma_cont_entries(s, 0, ply - 1, m);
    lemma_cont_entries(s, 1, ply - 2, m);
    lemma_cont_entries(s, 2, ply - 4, m);
    let t1 = if ply >= 1 {
        cont_bumped(t0, b0, m, w0)
    } else {
        t0
    };
    lemma_cont_bumped(t0, b0, m, w0);
    let t2 = if ply >= 2 {
        cont_bumped(t1, b1, m, w1)
    } else {
        t1
    };
    lemma_cont_bumped(t1, b1, m, w1);
    lemma_cont_bumped(t2, b2, m, w2);
    let t3 = s.cont_adjusted(ply, m, reward, far);
    assert forall|i: int| 0 <= i < t0.len() implies t0[i] <= #[trigger] t3[i] by {
        assert(t0[i] <= t1[i] && t1[i] <= t2[i] && t2[i] <= t3[i]);
    }
    if ply >= 1 && b0 is Some {
        let i = cont_entry(b0->0, m);
        assert(t1[i] <= t2[i] && t2[i] <= t3[i]);
    }
}

/// What is learned from a positive error of the evaluation raises the correction of the
/// same position, where pawn tables are used.
pub proof fn errors_correct_the_evaluation(
    before: Searcher,
    after: Searcher,
    game: GameState,
    ply: int,
    depth: int,
    difference: int,
    last: usize,
)
    requires
        before.wf(),
        before.corrhist_mode is PawnBased,
        -128 <= difference <= 128,
        depth >= 0,
        after.correction_learned(&before, game, ply, depth, difference, last),
    ensures
        ({
            let row = if game.turn is White {
                0int
            } else {
                1
            };
            let a = before.pawn_corrhist@[row]@[corr_slot(game.pawn_hash)];
            let b = before.material_corrhist@[row]@[corr_slot(game.material_hash)];
            let c = before.minor_corrhist@[row]@[corr_slot(minor_mix(game))];
            &&& a <= 256 * difference && b <= 256 * difference && c <= 256 * difference
                ==> after.correction(game, ply, last) >= before.correction(game, ply, last)
            &&& a >= 256 * difference && b >= 256 * difference && c >= 256 * difference
                ==> after.correction(game, ply, last) <= before.correction(game, ply, last)
        }),
        after.history == before.history,
{
    let row = if game.turn is White {
        0int
    } else {
        1
    };
    let w = depth_weight(depth);
    let i = corr_slot(game.pawn_hash);
    let j = corr_slot(game.material_hash);
    let k = corr_slot(minor_mix(game));
    assert(-32768 <= before.pawn_corrhist@[row]@[i] <= 32768);
    assert(-32768 <= before.material_corrhist@[row]@[j] <= 32768);
    assert(-32768 <= before.minor_corrhist@[row]@[k] <= 32768);
    let d = difference * 256;
    corrections_move_toward_results(before.pawn_corrhist@[row]@[i] as int, d, w);
    corrections_move_toward_results(before.material_corrhist@[row]@[j] as int, d, w);
    corrections_move_toward_results(before.minor_corrhist@[row]@[k] as int, d, w);
}

proof fn lemma_cont_corr(s: Searcher, ply: int, ago: int)
    ensures
        s.cont_corr_at(ply, ago) matches Some(i) ==> 0 <= i < 1_048_576,
{
    if let Some(cur) = s.move_history@[ply - 1] {
        lemma_coord(cur.to);
        assert(0 <= cur.piece.piece_type.index_spec() < 32);
    }
    if let Some(prev) = s.move_history@[ply - ago - 1] {
        lemma_coord(prev.to);
    }
}

/// The same holds where the tables of pieces are used, of which those of the last move and
/// of the moves before it learn too.
pub proof fn errors_correct_the_evaluation_of_pieces(
    before: Searcher,
    after: Searcher,
    game: GameState,
    ply: int,
    depth: int,
    difference: int,
    last: usize,
)
    requires
        before.wf(),
        before.corrhist_mode is NonPawnBased,
        -128 <= difference <= 128,
        depth >= 0,
        after.correction_learned(&before, game, ply, depth, difference, last),
    ensures
        ({
            let row = if game.turn is White {
                0int
            } else {
                1
            };
            let a = before.nonpawn_corrhist@[row]@[corr_slot(nonpawn_hash(game))];
            let b = before.material_corrhist@[row]@[corr_slot(game.material_hash)];
            let c = before.minor_corrhist@[row]@[corr_slot(minor_mix(game))];
            let d = before.lastmove_corrhist@[last as int % 4096];
            let e = before.cont_corr_value(ply, 1);
            let f = before.cont_corr_value(ply, 3);
            let one = before.cont_corr_at(ply, 1) is None || e <= 256 * difference;
            let three = before.cont_corr_at(ply, 3) is None || f <= 256 * difference;
            a <= 256 * difference && b <= 256 * difference && c <= 256 * difference && d <= 256
                * difference && one && three ==> after.correction(game, ply, last)
                >= before.correction(game, ply, last)
        }),
{
    let row = if game.turn is White {
        0int
    } else {
        1
    };
    let w = depth_weight(depth);
    let i = corr_slot(nonpawn_hash(game));
    let j = corr_slot(game.material_hash);
    let k = corr_slot(minor_mix(game));
    let l = last as int % 4096;
    assert(-32768 <= before.nonpawn_corrhist@[row]@[i] <= 32768);
    assert(-32768 <= before.material_corrhist@[row]@[j] <= 32768);
    assert(-32768 <= before.minor_corrhist@[row]@[k] <= 32768);
    assert(-32768 <= before.lastmove_corrhist@[l] <= 32768);
    let d = difference * 256;
    corrections_move_toward_results(before.nonpawn_corrhist@[row]@[i] as int, d, w);
    corrections_move_toward_results(before.material_corrhist@[row]@[j] as int, d, w);
    corrections_move_toward_results(before.minor_corrhist@[row]@[k] as int, d, w);
    corrections_move_toward_results(
        before.lastmove_corrhist@[l] as int,
        d,
        if w <= 64 {
            w
        } else {
            64
        },
    );
    lemma_cont_corr(before, ply, 1);
    lemma_cont_corr(before, ply, 3);
    assert(after.cont_corr_at(ply, 1) == before.cont_corr_at(ply, 1));
    assert(after.cont_corr_at(ply, 3) == before.cont_corr_at(ply, 3));
    let t = before.cont_corrhist@;
    let u = before.cont_corr_after(t, ply, 1, d, w);
    let v = before.cont_corr_after(u, ply, 3, d, w / 2);
    assert(after.cont_corrhist@ == v);
    if let Some(x) = before.cont_corr_at(ply, 1) {
        assert(-32768 <= t[x] <= 32768);
        corrections_move_toward_results(t[x] as int, d, w);
        corrections_move_toward_results(u[x] as int, d, w / 2);
    }
    if let Some(y) = before.cont_corr_at(ply, 3) {
        assert(-32768 <= t[y] <= 32768);
        corrections_move_toward_results(t[y] as int, d, w);
        corrections_move_toward_results(u[y] as int, d, w / 2);
    }
}

/// A null move's score prunes where it reaches beta and claims no win; at high depth it
/// has to be confirmed.
pub proof fn null_scores_prune_above_beta(score: int, beta: int, depth: int)
    ensures
        score < beta ==> null_verdict(score, beta, depth) is Continue,
        score > 800_000 ==> null_verdict(score, beta, depth) is Continue,
        beta <= score <= 800_000 && depth < 16 ==> null_verdict(score, beta, depth) is Prune,
        beta <= score <= 800_000 && depth >= 16 ==> null_verdict(score, beta, depth) is Confirm,
{
}

/// A quiet move with a history that is not bad, an evaluation above alpha and exchanges
/// that do not lose is not pruned; and pruning never lifts the best score above alpha.
pub proof fn good_quiet_moves_are_not_pruned<H: SearchHost>(
    searcher: Searcher,
    host: &H,
    node: Node,
    before: Progress,
    after: Progress,
    info: MoveInfo,
    new_depth: int,
    r: bool,
)
    requires
        !info.is_capture,
        !info.gives_check,
        new_depth >= 0,
        before.best_score <= before.alpha,
        move_judged(searcher, host, node, before, after, info, new_depth, r),
        -800_000 <= node.static_eval <= 800_000,
        -1_000_000 <= before.alpha <= 1_000_000,
    ensures
        before.best_score <= after.best_score <= before.alpha,
        after.alpha == before.alpha,
        after.best_move == before.best_move,
        ({
            let h = searcher.history@[info.m.piece.piece_type.index_spec()]@[square_slot(
                info.m.to.x,
                info.m.to.y,
            )];
            h >= 0 && node.static_eval >= before.alpha && (forall|see: i32| #[trigger]
                call_ensures(H::static_exchange_eval, (host, &info.m), see) ==> see >= 0) ==> !r
        }),
{
    let h = searcher.history@[info.m.piece.piece_type.index_spec()]@[square_slot(
        info.m.to.x,
        info.m.to.y,
    )] as int;
    let expected = quiet_depth(new_depth, h);
    assert(expected * expected >= 0) by (nonlinear_arith);
    let d = before.depth as int;
    assert(h >= 0 ==> !(h < -4083 * d)) by (nonlinear_arith)
        requires
            d >= 0,
    ;
}

/// A capture that holds against a raised beta is told to the table as a lower bound, with
/// its score and move.
pub proof fn held_captures_are_stored<H: SearchHost>(
    d: Point<H>,
    node: Node,
    m: Move,
    undo: H::Undo,
    score: i32,
    b: Point<H>,
    r: Option<i32>,
)
    requires
        -800_000 <= node.beta <= 800_000,
        capture_settled(d, node, m, undo, score, b, r),
        !d.searcher.hot.stopped,
    ensures
        score < node.beta + 172 ==> r is None,
        score >= node.beta + 235 ==> exists|back: H, entry: StoreContext|
            {
                &&& #[trigger] d.host.unmakes(m, undo, &back)
                &&& #[trigger] table_told(&back, entry, &b.host)
                &&& entry.flag is LowerBound
                &&& entry.score == score
                &&& entry.best_move == Some(m)
                &&& entry.hash == node.hash
                &&& entry.ply == node.ply
            },
        r matches Some(v) ==> node.beta <= v <= score,
{
}

/// A node that fails high by standing pat is told to the table as a lower bound at depth
/// zero, where the table did not know it.
pub proof fn standing_pat_is_stored<H: SearchHost>(
    before: &H,
    after: &H,
    game: GameState,
    tt: TtView,
    v: i32,
    raw: i32,
)
    requires
        standing_told(before, after, game, tt, (Ok::<i32, QuietProgress>(v), raw)),
    ensures
        tt.hit ==> *after == *before,
        !tt.hit ==> exists|entry: StoreContext|
            {
                &&& #[trigger] table_told(before, entry, after)
                &&& entry.flag is LowerBound
                &&& entry.depth == 0
                &&& entry.score == v
                &&& entry.static_eval == raw
                &&& entry.hash == game.hash
            },
{
}

/// A root move that raises alpha heads the principal variation.
pub proof fn raising_root_moves_head_the_variation(
    before: Searcher,
    searched: Searcher,
    m: Move,
    index: int,
    beta: i32,
    q: RootFound,
    score: i32,
    after: Searcher,
)
    requires
        searched.wf(),
        q.best_score <= q.raised,
        root_kept(before, searched, m, index, beta, q, score, after),
    ensures
        score > q.raised ==> after.pv_line(0).len() > 0 && after.pv_line(0)[0] == Some(m),
        score <= q.raised ==> after.pv_table == searched.pv_table && after.pv_length
            == searched.pv_length,
{
}

/// A line that was found is kept with its move, its score and a variation that starts with
/// the move; and once there are enough lines, the last wanted one is to be beaten.
pub proof fn found_lines_are_kept<H>(
    c: LinesPoint<H>,
    m: Move,
    score: i32,
    terms: LineTerms,
    e: Point<H>,
    d: LinesPoint<H>,
)
    requires
        best_first(c.lines),
        line_taken(c, m, score, terms, e, d),
    ensures
        exists|k: int|
            0 <= k < d.lines.len() && (#[trigger] d.lines[k]).mv == m && d.lines[k].score == score
                && d.lines[k].pv@.len() > 0 && d.lines[k].pv@[0] == m,
        d.lines.len() == c.lines.len() + 1,
        best_first(d.lines),
        terms.wanted > 0 && d.lines.len() >= terms.wanted ==> d.to_beat
            == d.lines[terms.wanted - 1].score,
        d.lines.len() < terms.wanted ==> d.to_beat == c.to_beat,
{
    let line = choose|line: PVLine| #[trigger]
        line_inserted(c.lines, line, d.lines) && line.mv == m && line.score == score && line.depth
            == terms.depth && line.pv@ == seq![m] + present(
            e.searcher.pv_line(1),
        );
    let k = lines_stay_in_order(c.lines, line, d.lines);
    assert(d.lines[k] == line);
}

/// Without a rule on moves without progress no number of them draws.
pub proof fn rules_are_taken_over(limit: u32)
    requires
        limit <= i32::MAX,
    ensures
        rule_limit_of(Some(limit)) == limit,
        rule_limit_of(None) == i32::MAX,
{
}

/// A quiescence node counts as a node and as one of quiescence, and the deepest ply is
/// noted.
pub proof fn quiet_nodes_are_counted(hot: SearcherHot, ply: usize)
    requires
        hot.nodes < u64::MAX,
        hot.qnodes < u64::MAX,
    ensures
        quiet_counted(hot, ply).nodes == hot.nodes + 1,
        quiet_counted(hot, ply).qnodes == hot.qnodes + 1,
        quiet_counted(hot, ply).seldepth >= ply,
        quiet_counted(hot, ply).seldepth >= hot.seldepth,
        quiet_counted(hot, ply).seldepth == ply || quiet_counted(hot, ply).seldepth
            == hot.seldepth,
        quiet_counted(hot, ply).stopped == hot.stopped,
{
}

/// On the principal variation the deepest ply is noted too, and a stop is noted where the
/// time is over.
pub proof fn main_line_nodes_note_their_ply(
    counted: Searcher,
    ctx: NegamaxContext,
    clock: ClockReading,
)
    ensures
        ({
            let after = clocked(counted, ctx, clock);
            &&& after.hot.nodes == counted.hot.nodes
            &&& after.hot.seldepth >= counted.hot.seldepth
            &&& ctx.node_type is PV && !after.hot.stopped ==> after.hot.seldepth >= ctx.ply
            &&& !(ctx.node_type is PV) ==> after.hot.seldepth == counted.hot.seldepth
            &&& counted.hot.stopped ==> after.hot.stopped
        }),
{
}

proof fn lemma_low_penalized(
    entry: int,
    quiets: Seq<Move>,
    n: nat,
    best: Move,
    to: int,
    malus: int,
)
    requires
        n <= quiets.len(),
        forall|i: int|
            0 <= i < n ==> !differs(#[trigger] quiets[i], best) || square_slot(
                quiets[i].to.x,
                quiets[i].to.y,
            ) != to,
    ensures
        low_penalized(entry, quiets, n, best, to, malus) == entry,
    decreases n,
{
    if n > 0 {
        lemma_low_penalized(entry, quiets, (n - 1) as nat, best, to, malus);
        assert(!differs(quiets[n - 1], best) || square_slot(
            quiets[n - 1].to.x,
            quiets[n - 1].to.y,
        ) != to);
    }
}

/// Near the root a quiet move that cut off is preferred more at its own ply, unless another
/// one to the same square was tried in vain; other plies are left alone. The move is noted
/// as the answer to the one before it.
pub proof fn cutoffs_near_the_root_are_remembered(
    before: Searcher,
    after: Searcher,
    ply: int,
    depth: int,
    best: Move,
    quiets: Seq<Move>,
    pawn_hash: u64,
    in_check: bool,
)
    requires
        before.wf(),
        0 <= ply < 4,
        depth >= 1,
        after.cutoff_learned(&before, ply, depth, best, quiets, pawn_hash, in_check),
    ensures
        ({
            let to = square_slot(best.to.x, best.to.y);
            &&& before.low_ply_history@[ply]@[to] < 16384 && (forall|i: int|
                0 <= i < quiets.len() ==> (#[trigger] quiets[i]).piece.piece_type
                    == best.piece.piece_type || square_slot(quiets[i].to.x, quiets[i].to.y) != to)
                ==> after.low_ply_history@[ply]@[to] > before.low_ply_history@[ply]@[to]
            &&& forall|p: int, j: int|
                0 <= p < 4 && 0 <= j < 4096 && p != ply
                    ==> #[trigger] after.low_ply_history@[p]@[j] == before.low_ply_history@[p]@[j]
            &&& ply > 0 && before.prev_move_stack@[ply - 1].0 < 256
                && before.prev_move_stack@[ply - 1].1 < 256 ==> {
                let (from, target) = before.prev_move_stack@[ply - 1];
                after.countermoves@[from as int]@[target as int] == (
                    best.piece.piece_type.index_spec() as u8,
                    best.to.x as i16,
                    best.to.y as i16,
                )
            }
        }),
{
    let to = square_slot(best.to.x, best.to.y);
    let v = best.to.x ^ best.to.y;
    assert(0 <= (v & 255) <= 255) by (bit_vector);
    let e = before.low_ply_history@[ply]@[to] as int;
    assert(-16384 <= before.low_ply_history@[ply]@[to] <= 16384);
    let bonus = bonus_for(depth);
    assert(bonus >= 50);
    if e < 16384 && (forall|i: int|
        0 <= i < quiets.len() ==> (#[trigger] quiets[i]).piece.piece_type == best.piece.piece_type
            || square_slot(quiets[i].to.x, quiets[i].to.y) != to) {
        bonus_raises_history(e, bonus);
        lemma_low_penalized(gravity(e, bonus), quiets, quiets.len(), best, to, bonus);
    }
}

} // verus!
