//! How a node is searched: what its replies are asked, what their scores do to it, and
//! when it may be left early.
use crate::board::{Coordinate, PieceType, PlayerColor};
use crate::game::GameState;
use crate::moves::Move;
use crate::search::decisions::{is_score, small_probcut_score, softening_stays_between, TtView};
use crate::search::host::{table_told, SearchHost};
use crate::search::judgement::{
    hindsight_corrects_by_one, late_quiet_moves_are_reduced, probing_captures_needs_a_margin,
    razoring_needs_a_hopeless_evaluation,
};
use crate::search::node::{
    after_score, against_raised, assessed, capped, closing_entry, entered, evaluation_entry,
    held_entry, lessons, looked_at, outcome, reduced_by, reduction_inputs, table_cut, takes, taught,
    unpruned, without, MoveInfo, Node, NodeEntry, Outcome, Progress,
};
use crate::search::quiescence::{quiet_result, quiet_step, QuietProgress};
use crate::search::results::{
    capture_judged, capture_step, capture_taken, captures_tried, child_searched, child_taken,
    kept_searched, leaf_judged, move_made, move_passed, move_searched, move_taken, move_tested,
    moves_searched, node_closed, node_scored, null_answered, open_searched, pruned, results_in,
    score_taken, scores, searched, singular_due,
};
use crate::search::stacks::PlyRecord;
use crate::search::steps::{at, Point, Stage};
use crate::search::{NegamaxContext, NodeType, Searcher, StoreContext};
use vstd::prelude::*;

verus! {

/// The score of a move is that of a search of the reply with the sign turned, one ply
/// on, with the window turned round: from alpha to beta, or just above alpha. A score
/// within the window comes from the full window.
pub proof fn replies_are_scored_from_the_other_side<H: SearchHost>(
    a: Point<H>,
    node: Node,
    p: Progress,
    info: MoveInfo,
    extension: i32,
    b: Point<H>,
    v: i32,
)
    requires
        is_score(p.alpha as int),
        is_score(node.beta as int),
        p.alpha < node.beta,
        child_searched(a, node, p, info, extension, b, Some(v)),
    ensures
        exists|from: Point<H>, ctx: NegamaxContext, to: Point<H>, w: i32|
            {
                &&& #[trigger] searched(from, ctx, to, w)
                &&& v == -w
                &&& ctx.ply == node.ply + 1
                &&& ctx.beta == -p.alpha
                &&& ctx.alpha == -node.beta || ctx.alpha == -p.alpha - 1
                &&& p.alpha < v < node.beta ==> ctx.alpha == -node.beta
                &&& p.legal_moves == 1 ==> ctx.alpha == -node.beta && from == a && to == b
                &&& p.legal_moves == 1 && 0 <= p.depth - 1 + extension <= 1000 ==> ctx.depth
                    == p.depth - 1 + extension
                &&& 1 <= p.depth <= 100 && -100 <= extension <= 100 ==> ctx.depth <= 1 || ctx.depth
                    <= p.depth + extension
                &&& ctx.allow_null
                &&& !ctx.was_null_move
                &&& ctx.excluded_move is None
            },
{
    reveal(child_searched);
}

/// A score that beats the best so far takes its place, and raises alpha where it is
/// above alpha; any other changes nothing.
pub proof fn better_scores_are_taken(p: Progress, m: Move, v: i32)
    requires
        p.best_score <= p.alpha,
    ensures
        ({
            let q = after_score(p, m, v);
            &&& q.best_score >= v
            &&& q.best_score >= p.best_score
            &&& q.best_score == v || q.best_score == p.best_score
            &&& q.alpha >= v
            &&& q.alpha >= p.alpha
            &&& q.alpha == v || q.alpha == p.alpha
            &&& v > p.best_score ==> q.best_move == Some(m)
            &&& v <= p.best_score ==> q == p
            &&& q.legal_moves == p.legal_moves
            &&& q.depth == p.depth
        }),
{
}

/// Once a reply was searched and the search was not stopped, the node's best score is at
/// least what the move scored, and the move is the best one where it scored more than
/// all before it.
pub proof fn searched_moves_count<H: SearchHost>(
    a: Point<H>,
    saved: PlyRecord,
    node: Node,
    p: Progress,
    info: MoveInfo,
    undo: H::Undo,
    extension: i32,
    b: Point<H>,
    q: Progress,
)
    requires
        p.best_score <= p.alpha,
        child_taken(a, saved, node, p, info, undo, extension, b, Ok(q)),
    ensures
        exists|c: Point<H>, found: Option<i32>|
            {
                &&& #[trigger] child_searched(a, node, p, info, extension, c, found)
                &&& c.host.unmakes(info.m, undo, &b.host)
                &&& match found {
                    None => q == p,
                    Some(v) => {
                        &&& q.best_score >= v
                        &&& q.best_score == v || q.best_score == p.best_score
                        &&& q.alpha == v || q.alpha == p.alpha
                        &&& q.alpha >= v
                        &&& v > p.best_score ==> q.best_move == Some(info.m)
                        &&& v <= p.best_score ==> q.best_move == p.best_move
                    },
                }
            },
{
    reveal(child_taken);
    reveal(child_searched);
    let (c, found) = choose|c: Point<H>, found: Option<i32>|
        #![trigger c.host.unmakes(info.m, undo, &b.host), c.sound(), scores(found)]
        c.sound() && scores(found) && child_searched(a, node, p, info, extension, c, found)
            && c.host.unmakes(info.m, undo, &b.host) && match found {
            None => q == p,
            Some(v) => q == after_score(p, info.m, v),
        };
    assert(child_searched(a, node, p, info, extension, c, found));
}

/// The score of a node with legal moves is the best of their scores, or where that is
/// above beta, one between beta and it.
pub proof fn nodes_score_their_best_move<H: SearchHost>(
    host: &H,
    node: Node,
    p: Progress,
    score: int,
)
    requires
        p.legal_moves > 0,
        node_scored(host, node, p, score),
    ensures
        p.best_score < node.beta ==> score == p.best_score,
        p.best_score >= node.beta ==> node.beta <= score <= p.best_score,
        p.best_score > 800_000 ==> score == p.best_score,
{
    if p.best_score >= node.beta {
        softening_stays_between(
            p.best_score as int,
            p.alpha as int,
            node.beta as int,
            p.depth as int,
        );
    }
}

/// The game says that the side to move has to escape from check.
pub open spec fn called_to_escape<H: SearchHost>(host: &H) -> bool {
    forall|answer: bool| #[trigger] call_ensures(H::must_escape_check, (host,), answer) ==> answer
}

/// The game says that the side to move has pieces.
pub open spec fn has_its_pieces<H: SearchHost>(host: &H) -> bool {
    forall|game: &GameState, answer: bool|
        call_ensures(H::game, (host,), game) && #[trigger] call_ensures(
            H::has_pieces,
            (host, game.turn),
            answer,
        ) ==> answer
}

/// The game says that the side to move has no pieces left.
pub open spec fn has_no_pieces<H: SearchHost>(host: &H) -> bool {
    forall|game: &GameState, answer: bool|
        call_ensures(H::game, (host,), game) && #[trigger] call_ensures(
            H::has_pieces,
            (host, game.turn),
            answer,
        ) ==> !answer
}

/// A node without legal moves is lost in check, by the number of plies from the root;
/// it is a stalemate, and so drawn, where the side to move has pieces and is not in
/// check; and lost without pieces.
pub proof fn mates_and_stalemates_are_told_apart<H: SearchHost>(
    host: &H,
    node: Node,
    p: Progress,
    score: int,
)
    requires
        p.legal_moves == 0,
        node.ply < 64,
        node_scored(host, node, p, score),
    ensures
        node.in_check && called_to_escape(host) ==> score == -900_000 + node.ply,
        has_no_pieces(host) ==> score == -900_000 + node.ply,
        !node.in_check && has_its_pieces(host) && node.beta > 0 ==> score == 0,
        !node.in_check && has_its_pieces(host) && node.beta <= 0 ==> node.beta <= score <= 0,
{
    if node.beta <= 0 {
        softening_stays_between(0, p.alpha as int, node.beta as int, p.depth as int);
    }
}

/// Outside check, a node that is left before its moves are searched fails high, unless
/// its evaluation is hopeless or the search was stopped.
pub proof fn pruned_nodes_fail_high<H: SearchHost>(
    a: Point<H>,
    node: Node,
    bound: nat,
    b: Point<H>,
    v: i32,
)
    requires
        is_score(node.beta as int),
        node.depth >= 1,
        pruned(a, node, bound, b, Some(v)),
        node.node_type is PV || node.eval >= node.alpha - 766,
    ensures
        v >= node.beta || (v == 0 && b.searcher.hot.stopped),
{
    reveal(pruned);
    reveal(null_answered);
    razoring_needs_a_hopeless_evaluation(
        node.eval as int,
        node.alpha as int,
        node.depth as int,
    );
}

/// A node that is left for its hopeless evaluation has the score of its captures, within
/// the same window.
pub proof fn hopeless_nodes_look_at_captures<H: SearchHost>(
    a: Point<H>,
    node: Node,
    bound: nat,
    b: Point<H>,
    r: Option<i32>,
)
    requires
        node.depth == 1,
        !(node.node_type is PV),
        node.eval < node.alpha - 766,
        pruned(a, node, bound, b, r),
    ensures
        r is Some,
        quiet_result(a, node.ply, node.alpha, node.beta, node.node_type, b, r->0),
{
    reveal(pruned);
    razoring_needs_a_hopeless_evaluation(
        node.eval as int,
        node.alpha as int,
        node.depth as int,
    );
}

/// A null move is answered by a search that may not pass again, one ply on, whether the
/// opponent gets above minus beta; its score with the sign turned is the one returned.
pub proof fn passing_is_answered_without_passing<H: SearchHost>(
    a: Point<H>,
    node: Node,
    bound: nat,
    b: Point<H>,
    v: i32,
)
    requires
        is_score(node.beta as int),
        null_answered(a, node, bound, b, Some(v)),
        !b.searcher.hot.stopped,
    ensures
        v <= 800_000,
        exists|from: Point<H>, ctx: NegamaxContext, to: Point<H>, w: i32|
            {
                &&& #[trigger] searched(from, ctx, to, w)
                &&& a.host.passes(&from.host)
                &&& ctx.ply == node.ply + 1
                &&& ctx.was_null_move
                &&& !ctx.allow_null
                &&& ctx.alpha == -node.beta
                &&& ctx.beta == -node.beta + 1
                &&& ctx.depth < node.depth || node.depth == 0
                &&& v == -w || (v == 0 && to.searcher.hot.stopped)
            },
{
    reveal(null_answered);
}

/// A capture that prunes a node shows it to fail high, unless the search was stopped.
pub proof fn captures_prune_above_beta<H: SearchHost>(
    a: Point<H>,
    node: Node,
    b: Point<H>,
    v: i32,
)
    requires
        is_score(node.beta as int),
        captures_tried(a, node, b, Some(v)),
    ensures
        v >= node.beta || (v == 0 && b.searcher.hot.stopped),
        !(node.node_type is PV),
        !node.in_check,
        node.depth >= 5,
{
    reveal(captures_tried);
    reveal(capture_step);
    reveal(capture_taken);
    reveal(capture_judged);
    probing_captures_needs_a_margin(
        node.node_type is PV,
        node.in_check,
        node.depth as int,
        node.beta as int,
        node.tt.value,
        node.static_eval as int,
    );
}

/// The table closes a node only off the principal variation, with a score that is a
/// bound on the right side and deep enough, and where no position repeats.
pub proof fn tables_close_nodes_they_know<H: SearchHost>(
    host: &H,
    rule_limit: i32,
    node: Node,
    v: i32,
)
    requires
        rule_limit >= 0,
        table_cut(host, rule_limit, node, Some(v)),
    ensures
        !(node.node_type is PV),
        node.excluded is None,
        node.tt.hit,
        node.tt.value == Some(v),
        node.tt.depth >= node.depth,
        v >= node.beta ==> node.tt.bound is LowerBound || node.tt.bound is Exact,
        v < node.beta ==> node.tt.bound is UpperBound || node.tt.bound is Exact,
        call_ensures(H::is_repetition, (host, node.ply), false),
        exists|game: &GameState| #[trigger]
            call_ensures(H::game, (host,), game) && game.halfmove_clock + 4 < rule_limit,
{
}

/// Below the root an open node has a window within which a mate can still change
/// something, and that lies within the window asked for.
pub proof fn entered_windows_allow_for_mates<H: SearchHost>(
    host: &H,
    searcher: Searcher,
    ctx: NegamaxContext,
    alpha: i32,
    beta: i32,
    in_check: bool,
    after: Searcher,
)
    requires
        0 < ctx.ply < 64,
        -1_000_000 <= ctx.alpha < ctx.beta <= 1_000_000,
        entered(host, searcher, ctx, NodeEntry::Open { alpha, beta, in_check }, after),
    ensures
        ctx.alpha <= alpha < beta <= ctx.beta,
        alpha >= -900_000 + ctx.ply,
        beta <= 899_999 - ctx.ply,
        alpha > ctx.alpha ==> alpha == -900_000 + ctx.ply || alpha == 1 || alpha == -1,
        beta < ctx.beta ==> beta == 899_999 - ctx.ply,
        call_ensures(H::is_in_check, (host,), in_check),
        call_ensures(H::has_lost_by_royal_capture, (host,), false),
        call_ensures(H::is_draw, (host, ctx.ply, in_check), false),
        // A repetition at hand makes a draw the least that counts.
        ctx.alpha < 0 && (forall|answer: bool| #[trigger]
            call_ensures(H::upcoming_repetition, (host, ctx.ply), answer) ==> answer) ==> alpha
            >= -1,
{
}

/// What the table is told of a node whose moves were searched: its position, how deep
/// they were searched, the score as the bound that it is, the evaluation and the best
/// move; without moves it counts as six plies deeper.
pub proof fn closed_nodes_are_stored_as_they_are<H: SearchHost>(
    a: Point<H>,
    node: Node,
    p: Progress,
    b: Point<H>,
    score: i32,
)
    requires
        node.alpha < node.beta,
        p.depth <= 64,
        node_closed(a, node, p, b, score),
    ensures
        exists|entry: StoreContext|
            {
                &&& #[trigger] table_told(&a.host, entry, &b.host)
                &&& entry.hash == node.hash
                &&& entry.score == score
                &&& entry.ply == node.ply
                &&& entry.static_eval == node.raw_eval
                &&& entry.flag is LowerBound <==> score >= node.beta
                &&& entry.flag is UpperBound <==> score <= node.alpha
                &&& entry.flag is Exact <==> node.alpha < score < node.beta
                &&& p.legal_moves > 0 ==> entry.depth == p.depth && entry.best_move == p.best_move
                &&& p.legal_moves == 0 ==> entry.best_move is None
                &&& p.legal_moves == 0 && p.depth <= 57 ==> entry.depth == p.depth + 6
                &&& node.tt_pv ==> entry.is_pv
                &&& score > node.alpha ==> entry.is_pv == node.tt_pv
            },
{
    let o = outcome(node, p, score);
    assert(table_told(&a.host, closing_entry(a.searcher, node, p, o), &b.host));
}

/// The game says that a move is legal.
pub open spec fn called_legal<H: SearchHost>(host: &H, m: Move) -> bool {
    forall|in_check: bool, answer: Option<bool>| #[trigger]
        call_ensures(H::is_legal_fast, (host, &m, in_check), answer) ==> answer == Some(true)
}

/// On the principal variation, and where everything else loses, no legal move is left
/// out but the excluded one.
pub proof fn moves_that_matter_are_searched<H: SearchHost>(
    a: Stage<H, H::Generator>,
    node: Node,
    bound: nat,
    before: Progress,
    m: Move,
    b: Stage<H, H::Generator>,
    r: Result<Progress, i32>,
)
    requires
        node.node_type is PV || before.best_score < -800_000,
        node.excluded is None || node.excluded->0.from != m.from || node.excluded->0.to != m.to,
        called_legal(&a.at.host, m),
        move_taken(a, node, bound, before, m, b, r),
    ensures
        exists|info: MoveInfo, undo: H::Undo, made: H|
            {
                &&& #[trigger] a.at.host.makes(m, undo, &made)
                &&& #[trigger] looked_at(&a.at.host, node, m, info)
                &&& move_searched(
                    at(made, a.at.searcher),
                    node,
                    bound,
                    before,
                    info,
                    undo,
                    b.at,
                    r,
                )
            },
{
    reveal(move_taken);
    reveal(move_made);
    reveal(move_searched);
}

/// A move that is excluded from a search is not made, and changes nothing.
pub proof fn excluded_moves_are_left_out<H: SearchHost>(
    a: Stage<H, H::Generator>,
    node: Node,
    bound: nat,
    before: Progress,
    m: Move,
    b: Stage<H, H::Generator>,
    r: Result<Progress, i32>,
)
    requires
        node.excluded is Some,
        node.excluded->0.from == m.from,
        node.excluded->0.to == m.to,
        node.excluded->0.promotion == m.promotion,
        move_taken(a, node, bound, before, m, b, r),
    ensures
        b == a,
        r == Ok::<Progress, i32>(before),
{
    reveal(move_taken);
}

/// A move that gives check is never pruned at a node.
pub proof fn checks_are_not_pruned<H: SearchHost>(
    a: Stage<H, H::Generator>,
    c: Stage<H, H::Generator>,
    node: Node,
    before: Progress,
    after: Progress,
    info: MoveInfo,
    prunes: bool,
    skipped: bool,
)
    requires
        info.gives_check,
        move_passed(a, c, node, before, after, info, prunes, skipped),
    ensures
        !skipped,
        after == before,
{
}

/// A capture is pruned only where the exchanges lose or where winning the piece would
/// still leave it below alpha.
pub proof fn good_captures_are_not_pruned<H: SearchHost>(
    a: Stage<H, H::Generator>,
    c: Stage<H, H::Generator>,
    node: Node,
    before: Progress,
    after: Progress,
    info: MoveInfo,
    prunes: bool,
    skipped: bool,
)
    requires
        info.is_capture,
        info.captured is Some,
        node.depth >= 1,
        forall|see: i32| #[trigger]
            call_ensures(H::static_exchange_eval, (&c.at.host, &info.m), see) ==> see >= 0,
        node.static_eval >= before.alpha + 2000,
        forall|t: PieceType, by: PlayerColor, value: i32| #[trigger]
            call_ensures(H::get_piece_value, (&c.at.host, t, by), value) ==> value >= 0,
        forall|i: int, j: int|
            0 <= i < 32 && 0 <= j < 32 ==> (#[trigger] a.at.searcher.capture_history@[i]@[j])
                >= -16_384,
        move_passed(a, c, node, before, after, info, prunes, skipped),
    ensures
        !skipped,
        after == before,
{
}

/// Nothing is learned of a quiet move that did not cut off; one that did becomes the first
/// killer of its ply.
pub proof fn only_cutoffs_are_learned(
    before: Searcher,
    noted: Searcher,
    after: Searcher,
    game: GameState,
    node: Node,
    p: Progress,
    info: MoveInfo,
    counts: bool,
)
    requires
        taught(before, noted, after, game, node, p, info, counts),
    ensures
        p.alpha < node.beta && info.captured is None ==> after == before,
        p.alpha >= node.beta && !info.is_capture ==> after.killers@[node.ply as int]@[0] == Some(
            info.m,
        ),
        p.alpha >= node.beta && info.is_capture ==> after.killers == before.killers
            && after.history == before.history,
        p.alpha < node.beta ==> after.killers == before.killers && after.history == before.history,
        after.pv_table == before.pv_table && after.pv_length == before.pv_length,
        p.alpha >= node.beta && counts && before.cutoff_cnt@[node.ply as int] < 255
            && node.ply < before.cutoff_cnt@.len() ==> after.cutoff_cnt@[node.ply as int]
            == before.cutoff_cnt@[node.ply as int] + 1,
{
}

/// A move that raises alpha starts the principal variation of its ply, and no other move
/// changes it.
pub proof fn raising_moves_head_the_variation<H: SearchHost>(
    host: &H,
    searcher: Searcher,
    node: Node,
    p: Progress,
    info: MoveInfo,
    score: i32,
    counts: bool,
    after: Searcher,
)
    requires
        searcher.wf(),
        node.ply < 63,
        score_taken(host, searcher, node, p, info, score, counts, after),
        p.best_score <= p.alpha,
    ensures
        score > p.alpha ==> after.pv_line(node.ply as int).len() > 0 && after.pv_line(
            node.ply as int,
        )[0] == Some(info.m) && after.pv_line(node.ply as int).len() == searcher.pv_line(
            node.ply + 1,
        ).len() + 1,
        score <= p.alpha ==> after.pv_table == searcher.pv_table && after.pv_length
            == searcher.pv_length,
{
    let (line, noted, game) = choose|line: Searcher, noted: Searcher, game: GameState| #[trigger]
        taught(line, noted, after, game, node, after_score(p, info.m, score), info, counts) && (
        if score > p.best_score && score > p.alpha {
            line.pv_put(&searcher, node.ply as int, info.m)
        } else {
            line == searcher
        });
    only_cutoffs_are_learned(
        line,
        noted,
        after,
        game,
        node,
        after_score(p, info.m, score),
        info,
        counts,
    );
}

/// The moves of a node were searched, and gave this score.
pub open spec fn scored_by_moves<H: SearchHost>(
    node: Node,
    bound: nat,
    b: Point<H>,
    score: i32,
) -> bool {
    exists|c: Point<H>, d: Point<H>, r: Result<Progress, i32>|
        #![trigger moves_searched(c, node, bound, d, r), results_in(d, node, r, b, score)]
        moves_searched(c, node, bound, d, r) && results_in(d, node, r, b, score)
}

proof fn lemma_kept<H: SearchHost>(a: Point<H>, node: Node, bound: nat, b: Point<H>, score: i32)
    requires
        node.in_check || node.node_type is PV,
        node.tt.value is None || node.tt.value->0 < node.beta + 800,
        kept_searched(a, node, bound, b, score),
    ensures
        scored_by_moves(node, bound, b, score),
{
    reveal(kept_searched);
    reveal(captures_tried);
    reveal(moves_searched);
    let (c, held) = choose|c: Point<H>, held: Option<i32>|
        #![trigger c.sound(), scores(held)]
        c.sound() && scores(held) && captures_tried(a, node, c, held) && match held {
            Some(v) => score == v && b == c,
            None => match small_probcut_score(node.tt, node.beta as int, node.depth as int) {
                Some(v) => score == v && b == c,
                None => exists|d: Point<H>, r: Result<Progress, i32>| #[trigger]
                    results_in(d, node, r, b, score) && moves_searched(c, node, bound, d, r),
            },
        };
    assert(held is None);
    let (d, r) = choose|d: Point<H>, r: Result<Progress, i32>| #[trigger]
        results_in(d, node, r, b, score) && moves_searched(c, node, bound, d, r);
    assert(moves_searched(c, node, bound, d, r));
}

/// In check, and on the principal variation, a node is not pruned before its moves are
/// searched: neither by its evaluation nor by a null move nor by captures. Only what the
/// table holds can do without them.
pub proof fn checks_and_main_lines_search_their_moves<H: SearchHost>(
    a: Point<H>,
    node: Node,
    bound: nat,
    b: Point<H>,
    score: i32,
)
    requires
        node.in_check || (node.node_type is PV && node.tt_pv),
        node.tt.value is None || node.tt.value->0 < node.beta + 800,
        open_searched(a, node, bound, b, score),
    ensures
        ({
            ||| table_cut(&a.host, a.searcher.move_rule_limit, node, Some(score)) && !(
            node.node_type is PV)
            ||| node.in_check && scored_by_moves(node, bound, b, score)
            ||| !node.in_check && exists|n: Node| #[trigger]
                scored_by_moves(n, bound, b, score) && n == (Node {
                    improving: n.improving,
                    depth: n.depth,
                    ..node
                }) && (n.depth == node.depth || (n.depth + 2 == node.depth
                    && node.tt.best_move is None))
        }),
{
    reveal(open_searched);
    reveal(pruned);
    reveal(kept_searched);
    let cut = choose|cut: Option<i32>| #[trigger]
        table_cut(&a.host, a.searcher.move_rule_limit, node, cut) && match cut {
            Some(v) => score == v && b == a,
            None => exists|s1: Searcher, c: Point<H>, early: Option<i32>|
                #![trigger
                    s1.tt_pv_put(&a.searcher, node.ply as int, node.tt_pv),
                    c.sound(),
                    scores(early)
                ]
                s1.tt_pv_put(&a.searcher, node.ply as int, node.tt_pv) && c.sound() && scores(early)
                    && (if node.in_check {
                    early is None && c == at(a.host, s1)
                } else {
                    pruned(at(a.host, s1), node, bound, c, early)
                }) && match early {
                    Some(v) => score == v && b == c,
                    None => kept_searched(
                        c,
                        if node.in_check {
                            node
                        } else {
                            unpruned(node)
                        },
                        bound,
                        b,
                        score,
                    ),
                },
        };
    if cut is None {
        let (s1, c, early) = choose|s1: Searcher, c: Point<H>, early: Option<i32>|
            #![trigger
                s1.tt_pv_put(&a.searcher, node.ply as int, node.tt_pv),
                c.sound(),
                scores(early)
            ]
            s1.tt_pv_put(&a.searcher, node.ply as int, node.tt_pv) && c.sound() && scores(early)
                && (if node.in_check {
                early is None && c == at(a.host, s1)
            } else {
                pruned(at(a.host, s1), node, bound, c, early)
            }) && match early {
                Some(v) => score == v && b == c,
                None => kept_searched(
                    c,
                    if node.in_check {
                        node
                    } else {
                        unpruned(node)
                    },
                    bound,
                    b,
                    score,
                ),
            };
        assert(early is None);
        let n = if node.in_check {
            node
        } else {
            unpruned(node)
        };
        lemma_kept(c, n, bound, b, score);
        assert(scored_by_moves(n, bound, b, score));
    }
}

/// Only late quiet moves are searched with less depth at first: from the fourth legal move
/// and depth three on, and not in check; and two plies are left.
pub proof fn only_late_quiet_moves_are_reduced<H: SearchHost>(
    host: &H,
    searcher: Searcher,
    node: Node,
    p: Progress,
    info: MoveInfo,
    r: i32,
)
    requires
        p.depth <= 100,
        reduced_by(host, searcher, node, p, info, r),
    ensures
        r >= 0,
        r > 0 ==> p.depth >= 3 && p.legal_moves >= 4 && !node.in_check && !info.is_capture && r
            + 2 <= p.depth,
        r > 0 && info.gives_check ==> !(info.m.piece.piece_type is Queen),
{
    late_quiet_moves_are_reduced(
        p.depth as int,
        p.legal_moves as int,
        node.in_check,
        info.is_capture,
        info.gives_check && (info.m.piece.piece_type is Queen || info.m.piece.piece_type is Amazon),
    );
}

/// Near the leaves a move is dropped only off the principal variation and out of check,
/// and only a late quiet one that gives no check; any other keeps its depth.
pub proof fn only_late_quiet_moves_are_dropped<H: SearchHost>(
    host: &H,
    searcher: Searcher,
    node: Node,
    p: Progress,
    info: MoveInfo,
    depth: int,
    r: Option<int>,
)
    requires
        0 <= depth <= 1000,
        leaf_judged(host, searcher, node, p, info, depth, r),
    ensures
        node.node_type is PV || node.in_check || info.is_capture || info.gives_check
            || info.m.promotion is Some || p.depth > 3 || p.legal_moves < 4 || p.best_score
            < -800_000 ==> r == Some(depth),
        r is None ==> depth <= 1,
        r matches Some(d) ==> d == depth || d == depth - 1 || d == 0,
{
}

/// The table move is tested for being the only good one off the principal variation, at
/// depth six or more, and not while a move is already left out.
pub proof fn only_trusted_moves_are_tested<H: SearchHost>(
    host: &H,
    searcher: Searcher,
    node: Node,
    p: Progress,
    info: MoveInfo,
)
    requires
        singular_due(host, searcher, node, p, info, true),
    ensures
        info.is_tt_move,
        !(node.node_type is PV),
        node.excluded is None,
        p.depth >= 6,
        node.tt_pv ==> p.depth >= 7,
        p.singular is Some,
{
}

/// How a node is assessed: in check by the evaluation two plies before, with its depth
/// kept; elsewhere with what the table tells of the evaluation, and a depth that differs
/// by one at most.
pub proof fn nodes_are_assessed_as_they_stand<H: SearchHost>(
    a: Point<H>,
    b: Point<H>,
    ctx: NegamaxContext,
    depth: usize,
    alpha: i32,
    beta: i32,
    in_check: bool,
    r: Node,
)
    requires
        1 <= depth <= 64,
        assessed(a, b, ctx, depth, alpha, beta, in_check, r),
    ensures
        r.alpha == alpha,
        r.beta == beta,
        r.ply == ctx.ply,
        r.in_check == in_check,
        r.excluded == ctx.excluded_move,
        ctx.node_type is PV ==> r.tt_pv,
        in_check ==> r.depth == depth,
        depth - 1 <= r.depth <= depth + 1,
        r.depth >= 1,
        in_check && ctx.ply >= 2 ==> r.raw_eval == a.searcher.eval_stack@[ctx.ply - 2],
        in_check && ctx.ply < 2 ==> r.raw_eval == 0,
        !in_check && r.tt.eval != 1_000_001 ==> r.raw_eval == r.tt.eval,
        ctx.excluded_move is Some ==> r.eval == r.static_eval,
        ctx.excluded_move is None && r.tt.value is None ==> r.eval == r.static_eval,
        exists|game: GameState| #[trigger]
            call_ensures(H::game, (&a.host,), &game) && r.hash == game.hash,
{
    if !in_check && ctx.ply > 0 {
        hindsight_corrects_by_one(
            depth as int,
            a.searcher.reduction_stack@[ctx.ply - 1] as int,
            r.opponent_worsening,
            r.static_eval + a.searcher.eval_stack@[ctx.ply - 1],
        );
    }
}

/// What is learned when a node is closed: the evaluation is corrected only out of check and
/// by a quiet best move, and never against what the bound proves.
pub proof fn closed_nodes_teach_what_they_show(
    before: Searcher,
    first: Searcher,
    second: Searcher,
    after: Searcher,
    game: GameState,
    quiet: bool,
    node: Node,
    p: Progress,
    o: Outcome,
)
    requires
        lessons(before, first, second, after, game, quiet, node, p, o),
    ensures
        node.in_check ==> after == second,
        o.flag is LowerBound && o.score < node.raw_eval ==> after == second,
        o.flag is UpperBound && o.score > node.raw_eval ==> after == second,
        o.best_move matches Some(m) && m.promotion is Some ==> after == second,
        node.node_type is PV || o.best_move is None ==> first == before,
        o.score > node.alpha ==> second == first,
{
}

/// The game says that a move is illegal.
pub open spec fn called_illegal<H: SearchHost>(host: &H, m: Move) -> bool {
    forall|in_check: bool, answer: Option<bool>| #[trigger]
        call_ensures(H::is_legal_fast, (host, &m, in_check), answer) ==> answer == Some(false)
}

/// An illegal move is not made, and neither counts nor scores.
pub proof fn illegal_moves_do_not_count<H: SearchHost>(
    a: Stage<H, H::Generator>,
    node: Node,
    bound: nat,
    before: Progress,
    m: Move,
    b: Stage<H, H::Generator>,
    r: Result<Progress, i32>,
)
    requires
        node.node_type is PV,
        called_illegal(&a.at.host, m),
        move_taken(a, node, bound, before, m, b, r),
    ensures
        b == a,
        r == Ok::<Progress, i32>(before),
{
    reveal(move_taken);
}

/// A move that is searched is counted as a legal one, once, and noted as quiet where it
/// neither captures nor promotes.
pub proof fn searched_moves_are_counted<H: SearchHost>(
    a: Point<H>,
    node: Node,
    bound: nat,
    before: Progress,
    info: MoveInfo,
    undo: H::Undo,
    b: Point<H>,
    q: Progress,
)
    requires
        before.legal_moves < usize::MAX,
        before.depth <= 64,
        move_searched(a, node, bound, before, info, undo, b, Ok(q)),
    ensures
        q.legal_moves == before.legal_moves + 1,
        !info.is_capture && info.m.promotion is None ==> q.quiets@ == before.quiets@.push(info.m),
        info.is_capture || info.m.promotion is Some ==> q.quiets@ == before.quiets@,
        q.depth == before.depth || q.depth == before.depth + 1,
{
    reveal(move_searched);
    reveal(move_tested);
    reveal(child_taken);
}

/// An illegal move is not made in quiescence either, and does not count.
pub proof fn illegal_captures_do_not_count<H: SearchHost>(
    a: Point<H>,
    ply: usize,
    beta: i32,
    node_type: NodeType,
    in_check: bool,
    last: Option<Coordinate>,
    m: Move,
    p: QuietProgress,
    b: Point<H>,
    q: QuietProgress,
    stopped: bool,
)
    requires
        called_illegal(&a.host, m),
        quiet_step(a, ply, beta, node_type, in_check, last, m, p, b, q, stopped),
    ensures
        b == a,
        q == p,
        !stopped,
{
}

/// A null move's result at high depth counts only where a search of the node itself, at
/// its own ply and without a null move, reaches beta too.
pub proof fn deep_null_moves_are_confirmed<H: SearchHost>(
    a: Point<H>,
    node: Node,
    bound: nat,
    b: Point<H>,
    v: i32,
)
    requires
        is_score(node.beta as int),
        node.beta > -1_000_000,
        node.depth >= 16,
        null_answered(a, node, bound, b, Some(v)),
        !b.searcher.hot.stopped,
        v >= node.beta,
    ensures
        v == 0 || exists|from: Point<H>, ctx: NegamaxContext, own: i32|
            {
                &&& #[trigger] searched(from, ctx, b, own)
                &&& own >= node.beta
                &&& ctx.alpha == node.beta - 1
                &&& ctx.beta == node.beta
                &&& ctx.ply == node.ply
                &&& !ctx.allow_null
                &&& !ctx.was_null_move
                &&& ctx.depth < node.depth
                &&& ctx.excluded_move is None
            },
{
    reveal(null_answered);
}

/// Whether other moves reach a limit is asked at the same node, with the move left out,
/// in a window just below the limit, and without a null move.
pub proof fn other_moves_are_asked_without_the_move(
    node: Node,
    m: Move,
    limit: i32,
    depth: usize,
)
    requires
        limit > -1_000_000,
    ensures
        without(node, m, limit, depth).excluded_move == Some(m),
        without(node, m, limit, depth).alpha == limit - 1,
        without(node, m, limit, depth).beta == limit,
        without(node, m, limit, depth).ply == node.ply,
        without(node, m, limit, depth).depth == depth,
        !without(node, m, limit, depth).allow_null,
        !without(node, m, limit, depth).was_null_move,
{
}

/// Whether a capture holds against a raised beta is asked at the next ply, in a window just
/// above minus that, and no deeper than the node.
pub proof fn captures_are_asked_against_a_raised_beta(node: Node, raised: i32)
    requires
        -1_000_000 <= raised <= 1_000_000,
        node.ply < 63,
        node.depth <= 64,
    ensures
        against_raised(node, raised).alpha == -raised,
        against_raised(node, raised).beta == 1 - raised,
        against_raised(node, raised).ply == node.ply + 1,
        against_raised(node, raised).depth <= node.depth,
        against_raised(node, raised).excluded_move is None,
        held_entry(node, raised, node.tt.best_move->0, raised).depth == against_raised(
            node,
            raised,
        ).depth + 1,
{
}

/// An evaluation is told to the table at depth zero and as no bound.
pub proof fn evaluations_are_stored_as_no_bound(hash: u64, raw: i32, tt: TtView, ply: usize)
    ensures
        evaluation_entry(hash, raw, tt, ply).flag is NoBound,
        evaluation_entry(hash, raw, tt, ply).depth == 0,
        evaluation_entry(hash, raw, tt, ply).static_eval == raw,
        evaluation_entry(hash, raw, tt, ply).hash == hash,
        evaluation_entry(hash, raw, tt, ply).best_move == tt.best_move,
        evaluation_entry(hash, raw, tt, ply).is_pv == tt.is_pv,
{
}

/// A move captures where a piece stands on its square, or a pawn takes en passant.
pub proof fn captures_take_what_stands_there(game: GameState, m: Move, i: int)
    ensures
        0 <= i < game.board@.len() && game.board@[i].0 == m.to.x && game.board@[i].1 == m.to.y
            ==> takes(game, m),
        game.en_passant == Some(m.to) && m.piece.piece_type is Pawn ==> takes(game, m),
        takes(game, m) && !(game.en_passant == Some(m.to) && m.piece.piece_type is Pawn)
            ==> exists|k: int|
            0 <= k < game.board@.len() && (#[trigger] game.board@[k]).0 == m.to.x
                && game.board@[k].1 == m.to.y,
{
}

/// A reduction goes by the node, the move's own history, and the fail highs of the next
/// ply.
pub proof fn reductions_go_by_the_node(
    searcher: Searcher,
    game: GameState,
    node: Node,
    m: Move,
    base: i32,
)
    requires
        searcher.wf(),
        node.ply < 64,
        -1_000_000 <= node.static_eval <= 1_000_000,
        -1_000_000 <= node.raw_eval <= 1_000_000,
    ensures
        ({
            let i = reduction_inputs(searcher, game, node, m, base);
            &&& i.base == base
            &&& i.improving == node.improving
            &&& i.correction == node.static_eval - node.raw_eval
            &&& i.all_node == (node.node_type is All)
            &&& i.next_cutoffs == searcher.cutoff_cnt@[node.ply + 1]
            &&& i.tt_move_history == searcher.tt_move_history
        }),
{
}

/// No node is searched deeper than 63 plies.
pub proof fn depths_are_capped(depth: usize)
    ensures
        depth <= 63 ==> capped(depth) == depth,
        depth > 63 ==> capped(depth) == 63,
{
}

} // verus!
