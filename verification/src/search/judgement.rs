//! What the decisions at a node promise: when a result may be taken over, when moves
//! may be left out, and how deep what is left is searched.
use crate::arith::tdiv;
use crate::search::decisions::{
    bonus_for, capture_is_futile, capture_see_allowance, child_type, cutoff_by_tt, flag_of,
    futility_margin, halved, hindsight, history_prunes, iir, late_move_count, leaf_prunable,
    leaf_verdict, lmr, mate_distance_window, null_depth, null_move_applies, probcut_applies,
    probcut_bound, probcut_search_depth, pv_floor, quiet_depth, quiet_futility, quiet_loses, razors,
    reduces, refined, repetition_window, research, rfp_applies, rfp_score, singular_bound,
    singular_outcome, singular_terms, small_probcut_score, softened, teaches, terminal_score,
    tt_reading, LeafVerdict, LmrInputs, Singular, TtView, Window,
};
use crate::search::{
    decisive, draw_value, losing, noise, noise_bits, winning, NodeType, TTFlag, TTProbeResult,
};
use vstd::prelude::*;

verus! {

/// Scores beyond 800000 are proven wins and losses, and no others are.
pub proof fn mates_are_decisive(value: int)
    ensures
        winning(value) <==> value > 800_000,
        losing(value) <==> value < -800_000,
        decisive(value) <==> value > 800_000 || value < -800_000,
{
}

/// A draw is worth one point to one side or the other.
pub proof fn draws_are_nearly_even(nodes: u64)
    ensures
        draw_value(nodes) == 1 || draw_value(nodes) == -1,
        nodes % 4 <= 1 ==> draw_value(nodes) == -1,
        nodes % 4 >= 2 ==> draw_value(nodes) == 1,
{
}

/// Noise lies between its amplitude to both sides.
pub proof fn noise_is_small(seed: u64, hash: u64, amp: int)
    requires
        amp >= 0,
    ensures
        -amp <= noise(seed, hash, amp) <= amp,
        amp > 0 ==> noise(seed, hash, amp) < amp,
        amp == 0 ==> noise(seed, hash, amp) == 0,
{
    if amp > 0 {
        let b = noise_bits(seed, hash) as int;
        assert(0 <= b % (2 * amp) < 2 * amp) by (nonlinear_arith)
            requires
                amp > 0,
        ;
    }
}

/// What a table holds is read as it is there, within the limits of scores; the mark of
/// a missing score is read as none.
pub proof fn entries_are_read_as_they_are(entry: TTProbeResult)
    ensures
        ({
            let v = tt_reading(Some(entry));
            &&& v.hit
            &&& v.best_move == entry.best_move
            &&& v.depth == entry.depth
            &&& v.is_pv == entry.is_pv
            &&& v.bound == entry.flag
            &&& entry.tt_score == 1_000_001 ==> v.value is None
            &&& -1_000_000 <= entry.tt_score <= 1_000_000 ==> v.value == Some(entry.tt_score)
            &&& -1_000_000 <= entry.eval <= 1_000_001 ==> v.eval == entry.eval
            &&& v.value matches Some(w) ==> -1_000_000 <= w <= 1_000_000
        }),
        ({
            let none = tt_reading(None);
            !none.hit && none.best_move is None && none.value is None && none.bound is NoBound
                && none.eval == 1_000_001
        }),
{
}

/// Where a repetition is at hand the score is at least that of a draw: it is returned
/// where it reaches beta, and else raises alpha.
pub proof fn a_repetition_secures_a_draw(alpha: int, beta: int, draw: int)
    requires
        -1_000_000 <= alpha < beta <= 1_000_000,
        -1 <= draw <= 1,
    ensures
        match repetition_window(alpha, beta, draw) {
            Window::Closed(v) => v == draw && draw >= beta,
            Window::Open(a, b) => {
                &&& draw < beta
                &&& b == beta
                &&& a >= draw
                &&& a >= alpha
                &&& a == draw || a == alpha
                &&& a < b
            },
        },
{
}

/// At a ply the score is at best a mate with the next move, and at worst being mated
/// at once.
pub proof fn mates_bound_the_window(alpha: int, beta: int, ply: int)
    requires
        -1_000_000 <= alpha < beta <= 1_000_000,
        0 <= ply <= 64,
    ensures
        match mate_distance_window(alpha, beta, ply) {
            Window::Closed(v) => {
                &&& beta <= -900_000 + ply || alpha >= 899_999 - ply
                &&& v == (if alpha >= -900_000 + ply {
                    alpha
                } else {
                    -900_000 + ply
                })
            },
            Window::Open(a, b) => {
                &&& a >= -900_000 + ply
                &&& b <= 899_999 - ply
                &&& a == alpha || a == -900_000 + ply
                &&& b == beta || b == 899_999 - ply
                &&& alpha <= a < b <= beta
            },
        },
{
}

/// A stored score replaces the evaluation only where its bound tells that it is closer
/// to the truth.
pub proof fn bounds_refine_the_evaluation(eval: int, tt: TtView, v: i32)
    requires
        tt.value == Some(v),
    ensures
        !tt.hit ==> refined(eval, tt) == eval,
        tt.hit && tt.bound is Exact ==> refined(eval, tt) == v,
        tt.hit && tt.bound is LowerBound ==> refined(eval, tt) == (if v > eval {
            v as int
        } else {
            eval
        }),
        tt.hit && tt.bound is UpperBound ==> refined(eval, tt) == (if v < eval {
            v as int
        } else {
            eval
        }),
        tt.bound is NoBound ==> refined(eval, tt) == eval,
{
}

/// Without a stored score the evaluation stands.
pub proof fn no_score_refines_nothing(eval: int, tt: TtView)
    requires
        tt.value is None,
    ensures
        refined(eval, tt) == eval,
{
}

/// A much reduced move is searched deeper where the opponent's position did not get
/// worse, and a reduced one shallower where both sides look well off.
pub proof fn hindsight_corrects_by_one(depth: int, reduction: int, worse: bool, sum: int)
    requires
        depth >= 1,
    ensures
        reduction < 2 ==> hindsight(depth, reduction, worse, sum) == depth,
        sum <= 173 && reduction >= 3 && !worse ==> hindsight(depth, reduction, worse, sum)
            == depth + 1,
        sum <= 173 && (reduction < 3 || worse) ==> hindsight(depth, reduction, worse, sum)
            == depth,
        sum > 173 && reduction >= 2 && (reduction < 3 || worse) && depth >= 2 ==> hindsight(
            depth,
            reduction,
            worse,
            sum,
        ) == depth - 1,
        sum > 173 && reduction >= 3 && !worse ==> hindsight(depth, reduction, worse, sum)
            == depth,
        hindsight(depth, reduction, worse, sum) >= 1,
{
}

/// A stored score that cuts off is a bound on the right side, was searched at least as
/// deep, and is not used close to the limit of the fifty-move rule.
pub proof fn cutoffs_are_backed(
    tt: TtView,
    beta: int,
    depth: int,
    cut_node: bool,
    clock: u32,
    limit: i32,
    v: i32,
)
    requires
        depth >= 0,
        limit >= 0,
        cutoff_by_tt(tt, beta, depth, cut_node, clock, limit) == Some(v),
    ensures
        tt.hit,
        tt.value == Some(v),
        v >= beta ==> tt.bound is LowerBound || tt.bound is Exact,
        v < beta ==> tt.bound is UpperBound || tt.bound is Exact,
        tt.depth >= depth,
        v > beta ==> tt.depth > depth,
        depth <= 5 ==> (cut_node <==> v >= beta),
        clock + 4 < limit,
{
}

/// A stored score that is deep enough, exact, and as the node expects it, does cut off.
pub proof fn deep_exact_scores_cut_off(
    tt: TtView,
    beta: int,
    depth: int,
    cut_node: bool,
    clock: u32,
    limit: i32,
    v: i32,
)
    requires
        depth >= 0,
        limit >= 0,
        tt.hit,
        tt.value == Some(v),
        v >= beta ==> tt.bound is LowerBound || tt.bound is Exact,
        v < beta ==> tt.bound is UpperBound || tt.bound is Exact,
        tt.depth > depth,
        (cut_node <==> v >= beta) || depth > 5,
        clock + 4 < limit,
    ensures
        cutoff_by_tt(tt, beta, depth, cut_node, clock, limit) == Some(v),
{
}

/// Razoring asks for an evaluation far below alpha: by 766 at depth one, and by more at
/// every further depth.
pub proof fn razoring_needs_a_hopeless_evaluation(eval: int, alpha: int, depth: int)
    requires
        depth >= 1,
    ensures
        razors(eval, alpha, depth) ==> alpha - eval > 766,
        depth == 1 && alpha - eval > 766 ==> razors(eval, alpha, depth),
        razors(eval, alpha, depth + 1) ==> razors(eval, alpha, depth),
        razors(eval, alpha, depth) ==> razors(eval - 1, alpha, depth),
        depth == 2 ==> (razors(eval, alpha, depth) <==> alpha - eval > 1609),
        depth == 3 ==> (razors(eval, alpha, depth) <==> alpha - eval > 3014),
{
    let d = depth * depth;
    let e = (depth + 1) * (depth + 1);
    assert(d >= 1 && e == d + 2 * depth + 1) by (nonlinear_arith)
        requires
            d == depth * depth,
            e == (depth + 1) * (depth + 1),
            depth >= 1,
    ;
    if depth == 2 {
        assert(d == 4) by (nonlinear_arith)
            requires
                d == depth * depth,
                depth == 2,
        ;
    }
    if depth == 3 {
        assert(d == 9) by (nonlinear_arith)
            requires
                d == depth * depth,
                depth == 3,
        ;
    }
    if depth == 1 {
        assert(d == 1) by (nonlinear_arith)
            requires
                d == depth * depth,
                depth == 1,
        ;
    }
}

/// The margin above beta grows with depth, by 76 for a node in the table and by 53 for
/// another; it is smaller where the position improves or the opponent's gets worse, and
/// larger where the evaluation had to be corrected much.
pub proof fn margins_grow_with_depth(
    depth: int,
    hit: bool,
    improving: bool,
    worse: bool,
    correction: int,
)
    ensures
        futility_margin(depth + 1, hit, improving, worse, correction) - futility_margin(
            depth,
            hit,
            improving,
            worse,
            correction,
        ) == (if hit {
            76int
        } else {
            53
        }),
        futility_margin(depth, hit, false, worse, correction) - futility_margin(
            depth,
            hit,
            true,
            worse,
            correction,
        ) == (if hit {
            183int
        } else {
            128
        }),
        futility_margin(depth, hit, improving, false, correction) - futility_margin(
            depth,
            hit,
            improving,
            true,
            correction,
        ) == (if hit {
            24int
        } else {
            17
        }),
        futility_margin(0, hit, false, false, 0) == 0,
        futility_margin(depth, hit, improving, worse, correction) >= futility_margin(
            depth,
            hit,
            improving,
            worse,
            0,
        ),
{
    let mult = if hit {
        76int
    } else {
        53
    };
    assert(mult * (depth + 1) == mult * depth + mult) by (nonlinear_arith);
}

/// Reverse futility pruning answers exactly where the evaluation exceeds beta by the
/// margin, with a score between beta and the evaluation, nearer to beta.
pub proof fn futile_nodes_fail_high(eval: int, beta: int, margin: int)
    requires
        margin >= 0,
    ensures
        rfp_score(eval, beta, margin) is Some <==> eval >= beta + margin,
        rfp_score(eval, beta, margin) matches Some(s) ==> {
            &&& beta <= s <= eval
            &&& s - beta <= eval - s + 2
        },
{
}

/// Reverse futility pruning is for shallow nodes off the principal variation, without a
/// quiet table move, and away from mates.
pub proof fn futility_is_for_quiet_shallow_nodes(
    tt_pv: bool,
    depth: int,
    no_quiet: bool,
    beta: int,
    eval: int,
)
    ensures
        rfp_applies(tt_pv, depth, no_quiet, beta, eval) <==> !tt_pv && depth <= 13 && no_quiet
            && beta >= -800_000 && eval <= 800_000,
{
}

/// A null move is tried where one is expected to fail high, and only with some depth
/// left; the search after it is at least seven plies shallower.
pub proof fn null_moves_need_a_good_position(
    cut_node: bool,
    allow: bool,
    depth: int,
    beta: int,
    eval: int,
)
    ensures
        null_move_applies(cut_node, allow, depth, beta, eval) <==> cut_node && allow && depth >= 3
            && beta >= -800_000 && eval + 350 >= beta + 18 * depth,
        0 <= depth <= 9 ==> null_depth(depth) == 0,
        depth == 12 ==> null_depth(depth) == 1,
        depth >= 11 ==> 3 * null_depth(depth) - 2 * depth >= -21 && 3 * null_depth(depth) - 2
            * depth <= -19,
        0 < depth ==> 0 <= null_depth(depth) < depth,
{
}

/// A deep node without a table move is searched two plies shallower, any other as deep
/// as it is.
pub proof fn nodes_without_a_table_move_are_reduced(depth: int)
    ensures
        iir(depth, true) == depth,
        depth < 6 ==> iir(depth, false) == depth,
        depth >= 6 ==> iir(depth, false) == depth - 2,
{
}

/// A capture has to beat beta by 235 to prune a node, or by 172 where the position
/// improves, which is tried off the principal variation, out of check, at depth five or
/// more, and away from mates.
pub proof fn probing_captures_needs_a_margin(
    is_pv: bool,
    in_check: bool,
    depth: int,
    beta: int,
    value: Option<i32>,
    eval: int,
)
    ensures
        probcut_bound(beta, false) == beta + 235,
        probcut_bound(beta, true) == beta + 172,
        forall|bound: int| #[trigger]
            probcut_applies(is_pv, in_check, depth, beta, value, bound) <==> !is_pv && !in_check
                && depth >= 5 && -800_000 <= beta <= 800_000 && (value is None || value->0
                >= bound),
        depth >= 0 ==> 0 <= probcut_search_depth(depth, eval, beta) <= depth,
        depth >= 4 && eval >= beta ==> probcut_search_depth(depth, eval, beta) <= depth - 4,
        depth >= 4 && beta <= eval < beta + 315 ==> probcut_search_depth(depth, eval, beta)
            == depth - 4,
        depth >= 5 && eval == beta - 315 ==> probcut_search_depth(depth, eval, beta) == depth - 3,
{
}

/// A table entry prunes a node alone where it beats beta by 800, and the score returned
/// is no more than it tells.
pub proof fn entries_prune_with_a_wide_margin(tt: TtView, beta: int, depth: int)
    ensures
        small_probcut_score(tt, beta, depth) matches Some(s) ==> {
            &&& s == beta + 800
            &&& tt.hit
            &&& tt.bound is LowerBound || tt.bound is Exact
            &&& tt.depth >= depth - 4
            &&& tt.value is Some
            &&& s <= tt.value->0 <= 800_000
            &&& -800_000 <= beta <= 800_000
        },
        tt.hit && (tt.bound is LowerBound || tt.bound is Exact) && tt.depth >= depth - 4
            && tt.value is Some && beta + 800 <= tt.value->0 <= 800_000 && -800_000 <= beta
            <= 800_000 ==> small_probcut_score(tt, beta, depth) is Some,
{
}

/// A table move is tested for being the only good one where its score is a deep enough
/// lower bound, out of check, and no mate; the test is less than half as deep.
pub proof fn singular_tests_need_a_trusted_move(tt: TtView, depth: int, in_check: bool)
    ensures
        singular_terms(tt, depth, in_check) is Some <==> depth >= 6 && !in_check && tt.hit
            && tt.best_move is Some && tt.value is Some && (tt.bound is LowerBound
            || tt.bound is Exact) && tt.depth + 3 >= depth && -800_000 <= tt.value->0 <= 800_000,
        singular_terms(tt, depth, in_check) matches Some((v, d)) ==> tt.value == Some(v) && 2 * d
            < depth && 2 * d >= depth - 2,
{
}

/// The bound of the test lies below the table's score by three for every ply, and rises
/// with how well table moves did.
pub proof fn singular_bounds_widen_with_depth(score: int, depth: int, history: int)
    ensures
        singular_bound(score, depth, 0) == score - 3 * depth,
        singular_bound(score, depth + 1, history) == singular_bound(score, depth, history) - 3,
        singular_bound(score, depth, history + 150) >= singular_bound(score, depth, history),
        history >= 0 ==> singular_bound(score, depth, history + 150) == singular_bound(
            score,
            depth,
            history,
        ) + 1,
        singular_bound(score + 1, depth, history) == singular_bound(score, depth, history) + 1,
{
}

/// A move is extended exactly where all others stay below the bound, by up to three
/// plies, the more the farther they stay below; the node is cut off where another move
/// beats beta too; else the move is not searched deeper than others.
pub proof fn only_moves_are_extended(
    value: int,
    bound: int,
    beta: int,
    depth: int,
    capture: bool,
    correction: int,
    tt_value: Option<i32>,
    cut_node: bool,
)
    requires
        depth >= 1,
    ensures
        match singular_outcome(
            value,
            bound,
            beta,
            depth,
            capture,
            correction,
            tt_value,
            cut_node,
        ) {
            Singular::Extend(n) => value < bound && 1 <= n <= 3,
            Singular::MultiCut => value >= bound && value >= beta && -800_000 <= value <= 800_000,
            Singular::Plain(n) => {
                &&& value >= bound
                &&& value < beta || value > 800_000 || value < -800_000
                &&& n == (if tt_value is Some && tt_value->0 >= beta {
                    -3int
                } else if cut_node {
                    -2
                } else {
                    0
                })
            },
        },
        !capture && correction == 0 ==> singular_outcome(
            value,
            bound,
            beta,
            depth,
            capture,
            correction,
            tt_value,
            cut_node,
        ) is Extend ==> {
            let n = singular_outcome(
                value,
                bound,
                beta,
                depth,
                capture,
                correction,
                tt_value,
                cut_node,
            )->Extend_0;
            &&& n == 3 <==> bound - value > 4 * depth
            &&& n == 1 <==> bound - value <= 2 * depth
        },
        capture && correction == 0 ==> singular_outcome(
            value,
            bound,
            beta,
            depth,
            capture,
            correction,
            tt_value,
            cut_node,
        ) is Extend ==> {
            let n = singular_outcome(
                value,
                bound,
                beta,
                depth,
                capture,
                correction,
                tt_value,
                cut_node,
            )->Extend_0;
            &&& n == 3 <==> bound - value > 4 * depth - 10
        },
{
}

/// Quiet moves are skipped after half as many, or one less, where the position does not
/// improve; the count grows with depth.
pub proof fn late_moves_are_many(depth: int)
    requires
        depth >= 0,
    ensures
        late_move_count(0, true) == 3,
        late_move_count(1, true) == 4,
        late_move_count(depth + 1, true) == late_move_count(depth, true) + 2 * depth + 1,
        2 * late_move_count(depth, false) <= late_move_count(depth, true) <= 2
            * late_move_count(depth, false) + 1,
{
    let d = depth * depth;
    assert((depth + 1) * (depth + 1) == d + 2 * depth + 1) by (nonlinear_arith)
        requires
            d == depth * depth,
    ;
    assert(d * 1 == d && (d + 2 * depth + 1) * 1 == d + 2 * depth + 1) by (nonlinear_arith);
}

/// A capture is futile where all it could win leaves it at or below alpha: 232, 217 for
/// every ply left, the captured piece, and its history.
pub proof fn futile_captures_cannot_raise_alpha(
    eval: int,
    left: int,
    captured: int,
    history: int,
    alpha: int,
)
    requires
        left >= 0,
    ensures
        capture_is_futile(eval, left, captured, 0, alpha) <==> alpha >= eval + captured + 232 + 217
            * left,
        history >= 0 && capture_is_futile(eval, left, captured, history, alpha) ==> alpha >= eval
            + captured + 232,
        capture_is_futile(eval, left, captured, history + 1, alpha) ==> capture_is_futile(
            eval,
            left,
            captured,
            history,
            alpha,
        ),
        capture_is_futile(eval, left, captured + 1, history, alpha) ==> capture_is_futile(
            eval,
            left,
            captured,
            history,
            alpha,
        ),
{
}

/// A capture may lose 106 in exchanges for every ply of depth, and more or less with its
/// history.
pub proof fn captures_may_lose_a_little(depth: int, history: int)
    requires
        depth >= 0,
    ensures
        capture_see_allowance(depth, 0) == 106 * depth,
        capture_see_allowance(depth, history) >= 0,
        history >= 0 ==> capture_see_allowance(depth, history) >= 106 * depth,
        history <= 0 ==> capture_see_allowance(depth, history) <= 106 * depth,
        history >= 0 ==> capture_see_allowance(depth, history + 29) == capture_see_allowance(
            depth,
            history,
        ) + 1,
{
}

/// A quiet move is dropped for a history that is bad for the depth; its expected depth
/// and the score that it is hoped to reach go up with its history.
pub proof fn quiet_moves_go_by_their_history(
    depth: int,
    history: int,
    eval: int,
    see: int,
)
    requires
        depth >= 0,
    ensures
        history >= 0 ==> !history_prunes(history, depth),
        depth == 1 ==> (history_prunes(history, depth) <==> history < -4083),
        history_prunes(history, depth + 1) ==> history_prunes(history, depth),
        quiet_depth(depth, 0) == depth,
        quiet_depth(depth, 3208) == depth + 1,
        depth > 0 ==> quiet_depth(depth, -3208) == depth - 1,
        quiet_depth(depth, history) >= 0,
        quiet_depth(depth, history + 1) >= quiet_depth(depth, history),
        quiet_futility(eval, true, 0) == eval + 42,
        forall|b: bool, e: int| #[trigger]
            quiet_futility(eval, b, e + 1) == quiet_futility(eval, b, e) + 127,
        forall|e: int| #[trigger]
            quiet_futility(eval, false, e) == quiet_futility(eval, true, e) + 161,
        see >= 0 ==> !quiet_loses(see, depth),
        quiet_loses(see, 0) <==> see < 0,
        quiet_loses(see, 1) <==> see < -25,
        quiet_loses(see, 2) <==> see < -100,
        quiet_loses(see, depth + 1) ==> quiet_loses(see, depth),
{
    let d = depth * depth;
    assert(d >= 0 && (depth + 1) * (depth + 1) == d + 2 * depth + 1) by (nonlinear_arith)
        requires
            d == depth * depth,
            depth >= 0,
    ;
}

/// Late quiet moves are searched with less depth at first, from depth three and the
/// fourth move on, out of check.
pub proof fn late_quiet_moves_are_reduced(
    depth: int,
    moves: int,
    in_check: bool,
    is_capture: bool,
    queen_check: bool,
)
    ensures
        reduces(depth, moves, in_check, is_capture, queen_check) <==> depth >= 3 && moves >= 4
            && !in_check && !is_capture && !queen_check,
{
}

/// A reduction leaves at least two plies, and grows with each ground for doubt: a position
/// that does not improve, a move that shuffles, or many cutoffs on the next ply.
pub proof fn reductions_go_by_doubt(i: LmrInputs, depth: int)
    requires
        depth >= 2,
    ensures
        0 <= lmr(i, depth) <= depth - 2,
        lmr((LmrInputs { improving: true, ..i }), depth) <= lmr(
            (LmrInputs { improving: false, ..i }),
            depth,
        ) <= lmr((LmrInputs { improving: true, ..i }), depth) + 1,
        lmr((LmrInputs { shuffling: false, ..i }), depth) <= lmr(
            (LmrInputs { shuffling: true, ..i }),
            depth,
        ),
        lmr((LmrInputs { next_cutoffs: 2, ..i }), depth) <= lmr(
            (LmrInputs { next_cutoffs: 3, ..i }),
            depth,
        ),
{
}

/// A reduction shrinks with a good history, and where the evaluation had to be corrected.
pub proof fn reductions_shrink_with_trust(i: LmrInputs, depth: int, h: i32, c: i32)
    requires
        depth >= 2,
        h >= i.history,
    ensures
        lmr((LmrInputs { history: h, ..i }), depth) <= lmr(i, depth),
        lmr((LmrInputs { correction: c, ..i }), depth) <= lmr(
            (LmrInputs { correction: 0, ..i }),
            depth,
        ),
{
    assert(tdiv(h as int, 4096) >= tdiv(i.history as int, 4096));
}

/// A reduction is the one that depth and number give where nothing speaks for more or
/// less; each ground for doubt adds one ply, and each 4096 of history takes one off.
pub proof fn reductions_count_their_grounds(i: LmrInputs, depth: int)
    requires
        i.correction == 0,
        1 <= i.base <= depth - 6,
    ensures
        i.improving && i.history == 0 && !i.shuffling && i.next_cutoffs <= 2 && i.tt_move_history
            >= -1000 ==> lmr(i, depth) == i.base,
        !i.improving && i.history == 0 && i.shuffling && i.next_cutoffs > 2 && i.tt_move_history
            >= -1000 ==> lmr(i, depth) == i.base + (if i.all_node {
            4int
        } else {
            3
        }),
        i.improving && i.history == 4096 && !i.shuffling && i.next_cutoffs <= 2
            && i.tt_move_history >= -1000 ==> lmr(i, depth) == i.base - 1,
        i.improving && i.history == -4096 && !i.shuffling && i.next_cutoffs <= 2
            && i.tt_move_history >= -1000 ==> lmr(i, depth) == i.base + 1,
        i.improving && i.history == 0 && !i.shuffling && i.next_cutoffs <= 2 && i.tt_move_history
            < -1000 ==> lmr(i, depth) == i.base - 1,
{
}

/// A late quiet move near the leaves is dropped only for a negative history with no more
/// than a ply left, and keeps its depth for a good one; never in check, with check, or
/// where mate threatens.
pub proof fn leaves_keep_good_moves(new_depth: int, history: int)
    requires
        0 <= new_depth <= 1000,
    ensures
        match leaf_verdict(new_depth, history) {
            LeafVerdict::Drop => history < 0 && new_depth <= 1,
            LeafVerdict::Keep(d) => d == (if history >= 300 {
                new_depth
            } else {
                new_depth - 1
            }) && !(history < 0 && new_depth <= 1),
        },
        forall|quiet: bool, check: bool, evading: bool, pv: bool, depth: int, moves: int, best: int|
            #[trigger]
            leaf_prunable(quiet, check, evading, pv, depth, moves, best) <==> quiet && !check
                && !evading && !pv && depth <= 3 && moves >= 4 && best >= -800_000,
{
}

/// A reduced move that did well is searched again one ply deeper, one that hardly beat
/// the best one ply shallower, and others at the full depth.
pub proof fn second_searches_go_by_the_first(base: int, searched: int, score: int, best: int)
    requires
        base >= 1,
    ensures
        score > best + 43 + 2 * base && searched < base ==> research(base, searched, score, best)
            == base + 1,
        score < best + 9 ==> research(base, searched, score, best) == base - 1,
        best + 9 <= score <= best + 43 + 2 * base ==> research(base, searched, score, best)
            == base,
        searched >= base && score >= best + 9 ==> research(base, searched, score, best) == base,
{
}

/// The table move of the principal variation gets a last ply where the table knows more.
pub proof fn known_lines_are_followed(depth: int, on_tt_move: bool, tt: TtView)
    requires
        depth >= 0,
    ensures
        depth > 0 || !on_tt_move ==> pv_floor(depth, on_tt_move, tt) == depth,
        depth == 0 && on_tt_move && tt.depth > 1 ==> pv_floor(depth, on_tt_move, tt) == 1,
        depth == 0 && on_tt_move && tt.depth == 1 && tt.value is Some && tt.value->0 > 800_000
            ==> pv_floor(depth, on_tt_move, tt) == 1,
        tt.depth == 0 ==> pv_floor(depth, on_tt_move, tt) == depth,
        tt.value is None && tt.depth <= 1 ==> pv_floor(depth, on_tt_move, tt) == depth,
{
}

/// A cutoff pays 50 at depth one and 300 more for every further ply, up to 1536.
pub proof fn deeper_cutoffs_pay_more(depth: int)
    requires
        depth >= 1,
    ensures
        bonus_for(1) == 50,
        depth < 5 ==> bonus_for(depth + 1) == bonus_for(depth) + 300,
        depth >= 6 ==> bonus_for(depth) == 1536,
        bonus_for(depth) <= bonus_for(depth + 1),
        bonus_for(depth) > 0,
{
}

/// Without a legal move the side to move has lost in check or without pieces, the worse
/// the sooner; else nobody has.
pub proof fn no_moves_is_mate_or_stalemate(ply: int)
    ensures
        terminal_score(true, false, ply) == -900_000 + ply,
        terminal_score(true, true, ply) == -900_000 + ply,
        terminal_score(false, true, ply) == -900_000 + ply,
        terminal_score(false, false, ply) == 0,
{
}

/// A score above beta is drawn toward beta, fully at depth zero and ever less with
/// depth; other scores and mates are kept.
pub proof fn high_scores_are_softened(score: int, alpha: int, beta: int, depth: int)
    requires
        depth >= 0,
    ensures
        score < beta ==> softened(score, alpha, beta, depth) == score,
        score > 800_000 || score < -800_000 ==> softened(score, alpha, beta, depth) == score,
        beta <= score <= 800_000 && beta >= -800_000 && -800_000 <= alpha <= 800_000 ==> softened(
            score,
            alpha,
            beta,
            0,
        ) == beta,
        0 <= beta <= score <= 800_000 && -800_000 <= alpha <= 800_000 ==> (depth + 1) * softened(
            score,
            alpha,
            beta,
            depth,
        ) <= score * depth + beta < (depth + 1) * softened(score, alpha, beta, depth) + depth + 1,
{
    let n = depth + 1;
    let t = score * depth + beta;
    assert(score * 0 == 0);
    if 0 <= beta <= score {
        assert(t >= 0) by (nonlinear_arith)
            requires
                t == score * depth + beta,
                0 <= beta <= score,
                depth >= 0,
        ;
        let q = t / n;
        assert(n * q <= t < n * q + n) by (nonlinear_arith)
            requires
                q == t / n,
                n > 0,
        ;
    }
    assert(beta / 1 == beta && (-beta) / 1 == -beta);
}

/// In quiescence a score above beta is drawn halfway to it, and mates are kept.
pub proof fn quiet_high_scores_are_halved(score: int, beta: int)
    requires
        score >= beta,
    ensures
        score > 800_000 || score < -800_000 ==> halved(score, beta) == score,
        -800_000 <= score <= 800_000 ==> beta <= halved(score, beta) <= score && -1 <= score + beta
            - 2 * halved(score, beta) <= 1,
{
}

/// A result is a lower bound at or above beta, an upper bound at or below alpha, and
/// exact between.
pub proof fn flags_tell_the_truth(score: int, alpha: int, beta: int)
    requires
        alpha < beta,
    ensures
        flag_of(score, alpha, beta) is LowerBound <==> score >= beta,
        flag_of(score, alpha, beta) is UpperBound <==> score <= alpha,
        flag_of(score, alpha, beta) is Exact <==> alpha < score < beta,
{
}

/// A bound teaches only what it proves: that the evaluation was too low or too high.
pub proof fn bounds_teach_what_they_prove(score: int, eval: int)
    ensures
        teaches(TTFlag::LowerBound, score, eval) <==> eval <= score,
        teaches(TTFlag::UpperBound, score, eval) <==> eval >= score,
        teaches(TTFlag::Exact, score, eval),
        !teaches(TTFlag::NoBound, score, eval),
{
}

/// The principal variation goes on through first moves; below it, cut nodes and all
/// nodes alternate.
pub proof fn node_types_alternate()
    ensures
        child_type(NodeType::PV, true) is PV,
        child_type(NodeType::PV, false) is Cut,
        child_type(NodeType::Cut, true) is All,
        child_type(NodeType::Cut, false) is All,
        child_type(NodeType::All, true) is Cut,
        child_type(NodeType::All, false) is Cut,
{
}

} // verus!
