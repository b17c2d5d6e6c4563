//! What the search remembers: moves that cut off are preferred, moves that did not are
//! put back, and evaluations are corrected toward what was found.
use crate::arith::{abs, clamp, tdiv};
use crate::game::{GameState, Variant};
use crate::moves::Move;
use crate::search::decisions::bonus_for;
use crate::search::learning::{differs, penalized, weighted, CONT_WEIGHTS};
use crate::search::ordering::square_slot;
use crate::search::searcher::{
    blended, bonus_raises_history, corr_slot, depth_weight, gravity, history_stays_within_limits,
    malus_lowers_history, minor_mix, pawn_slot, ClockReading, Searcher, SearcherHot,
};
use vstd::prelude::*;

verus! {

proof fn lemma_penalized(
    entry: int,
    quiets: Seq<Move>,
    n: nat,
    best: Move,
    piece: int,
    to: int,
    malus: int,
)
    requires
        -16384 <= entry <= 16384,
        malus > 0,
        n <= quiets.len(),
    ensures
        -16384 <= penalized(entry, quiets, n, best, piece, to, malus) <= entry,
        best.piece.piece_type.index_spec() == piece && square_slot(best.to.x, best.to.y) == to
            ==> penalized(entry, quiets, n, best, piece, to, malus) == entry,
        entry >= 0 && (exists|k: int|
            0 <= k < n && differs(#[trigger] quiets[k], best)
                && quiets[k].piece.piece_type.index_spec() == piece && square_slot(
                quiets[k].to.x,
                quiets[k].to.y,
            ) == to) ==> penalized(entry, quiets, n, best, piece, to, malus) < entry,
    decreases n,
{
    if n > 0 {
        lemma_penalized(entry, quiets, (n - 1) as nat, best, piece, to, malus);
        let before = penalized(entry, quiets, (n - 1) as nat, best, piece, to, malus);
        malus_lowers_history(before, -malus);
        history_stays_within_limits(before, -malus);
    }
}

/// After a quiet move cut off, the history prefers it more than before and no other move
/// of the same kind of piece or another; a quiet move that was tried before it in vain
/// is preferred less; and it is the first killer of its ply, before the one so far.
pub proof fn cutoffs_are_remembered(
    before: Searcher,
    after: Searcher,
    ply: int,
    depth: int,
    best: Move,
    quiets: Seq<Move>,
    pawn_hash: u64,
    in_check: bool,
    tried: int,
)
    requires
        before.wf(),
        0 <= ply < 64,
        depth >= 1,
        0 <= tried < quiets.len(),
        after.cutoff_learned(&before, ply, depth, best, quiets, pawn_hash, in_check),
    ensures
        ({
            let piece = best.piece.piece_type.index_spec();
            let to = square_slot(best.to.x, best.to.y);
            let q = quiets[tried];
            let other = q.piece.piece_type.index_spec();
            let there = square_slot(q.to.x, q.to.y);
            &&& after.history@[piece]@[to] >= before.history@[piece]@[to]
            &&& before.history@[piece]@[to] < 16384 ==> after.history@[piece]@[to]
                > before.history@[piece]@[to]
            &&& before.pawn_history@[pawn_slot(pawn_hash, piece, to)] < 16384
                ==> after.pawn_history@[pawn_slot(pawn_hash, piece, to)]
                > before.pawn_history@[pawn_slot(pawn_hash, piece, to)]
            &&& forall|p: int, j: int|
                0 <= p < 32 && 0 <= j < 256 && (p != piece || j != to)
                    ==> #[trigger] after.history@[p]@[j] <= before.history@[p]@[j]
            &&& (other != piece || there != to) && before.history@[other]@[there] >= 0
                ==> after.history@[other]@[there] < before.history@[other]@[there]
            &&& after.killers@[ply]@[0] == Some(best)
            &&& after.killers@[ply]@[1] == before.killers@[ply]@[0]
        }),
{
    let piece = best.piece.piece_type.index_spec();
    let to = square_slot(best.to.x, best.to.y);
    let q = quiets[tried];
    let other = q.piece.piece_type.index_spec();
    let there = square_slot(q.to.x, q.to.y);
    let bonus = bonus_for(depth);
    assert(bonus >= 50);
    lemma_slots(best);
    lemma_slots(q);
    let n = quiets.len();
    let e = before.history@[piece]@[to] as int;
    assert(-16384 <= before.history@[piece]@[to] <= 16384);
    history_stays_within_limits(e, bonus);
    if e < 16384 {
        bonus_raises_history(e, bonus);
    }
    assert(e == 16384 ==> gravity(e, bonus) == 16384) by {
        let b = clamp(bonus, -16384, 16384);
        assert(16384 * b / 16384 == b);
    }
    lemma_penalized(gravity(e, bonus), quiets, n, best, piece, to, bonus);
    assert(after.history@[piece]@[to] == gravity(e, bonus));
    let s = pawn_slot(pawn_hash, piece, to);
    lemma_pawn_slots(pawn_hash, piece, to);
    let pe = before.pawn_history@[s] as int;
    assert(-16384 <= before.pawn_history@[s] <= 16384);
    history_stays_within_limits(pe, bonus * 2);
    if pe < 16384 {
        bonus_raises_history(pe, bonus * 2);
    }
    lemma_penalized(gravity(pe, bonus * 2), quiets, n, best, piece, to, bonus);
    assert forall|p: int, j: int|
        0 <= p < 32 && 0 <= j < 256 && (p != piece || j
            != to) implies #[trigger] after.history@[p]@[j] <= before.history@[p]@[j] by {
        assert(-16384 <= before.history@[p]@[j] <= 16384);
        lemma_penalized(before.history@[p]@[j] as int, quiets, n, best, p, j, bonus);
    }
    if other != piece || there != to {
        assert(differs(quiets[tried], best));
        assert(-16384 <= before.history@[other]@[there] <= 16384);
        lemma_penalized(
            before.history@[other]@[there] as int,
            quiets,
            n,
            best,
            other,
            there,
            bonus,
        );
        assert(after.history@[other]@[there] <= before.history@[other]@[there]);
    }
}

proof fn lemma_slots(m: Move)
    ensures
        0 <= m.piece.piece_type.index_spec() < 32,
        0 <= square_slot(m.to.x, m.to.y) < 256,
{
    let v = m.to.x ^ m.to.y;
    assert(0 <= (v & 255) <= 255) by (bit_vector);
}

proof fn lemma_pawn_slots(pawn_hash: u64, piece: int, to: int)
    requires
        0 <= piece < 32,
        0 <= to < 256,
    ensures
        0 <= pawn_slot(pawn_hash, piece, to) < 8192 * 8192,
{
}

/// A capture that cut off is preferred more than before, and one that did not, less;
/// deeper cutoffs count more.
pub proof fn captures_are_remembered(entry: int, depth: int)
    requires
        -16384 <= entry <= 16384,
        1 <= depth <= 64,
    ensures
        entry < 16384 ==> Searcher::capture_after(entry, depth, true) > entry,
        Searcher::capture_after(entry, depth, true) >= entry,
        Searcher::capture_after(entry, depth, false) <= entry,
        entry >= 0 ==> Searcher::capture_after(entry, depth, false) < entry,
        Searcher::capture_after(0, 1, true) == 8,
        Searcher::capture_after(0, 2, true) == 32,
        Searcher::capture_after(0, 5, true) == 200,
        Searcher::capture_after(0, 5, false) == -10,
        Searcher::capture_after(0, 1, false) == -2,
{
    let d = depth * depth;
    assert(1 <= d <= 4096) by (nonlinear_arith)
        requires
            d == depth * depth,
            1 <= depth <= 64,
    ;
    let bonus = 8 * d;
    let p = entry * bonus;
    assert(-16384 * bonus <= p <= 16384 * bonus && (entry < 16384 ==> p < 16384 * bonus))
        by (nonlinear_arith)
        requires
            p == entry * bonus,
            -16384 <= entry <= 16384,
            bonus > 0,
    ;
    let malus = 2 * depth;
    let q = entry * malus;
    assert(-16384 * malus <= q <= 16384 * malus && (entry >= 0 ==> q >= 0)) by (nonlinear_arith)
        requires
            q == entry * malus,
            -16384 <= entry <= 16384,
            malus > 0,
    ;
}

/// Where a node failed low, the opponent's quiet move that led to it is preferred more,
/// and no other move of its table is touched.
pub proof fn refutations_reward_the_move_before(
    before: Searcher,
    after: Searcher,
    ply: int,
    depth: int,
    pawn_hash: u64,
    in_check: bool,
    m: Move,
)
    requires
        before.wf(),
        0 < ply < 64,
        depth >= 1,
        before.move_history@[ply - 1] == Some(m),
        !before.capture_history_stack@[ply - 1],
        before.moved_piece_history@[ply - 1] < 32,
        after.fail_low_learned(&before, ply, depth, pawn_hash, in_check),
    ensures
        ({
            let piece = before.moved_piece_history@[ply - 1] as int;
            let to = square_slot(m.to.x, m.to.y);
            &&& before.history@[piece]@[to] < 16384 ==> after.history@[piece]@[to]
                > before.history@[piece]@[to]
            &&& forall|p: int, j: int|
                0 <= p < 32 && 0 <= j < 256 && (p != piece || j != to)
                    ==> #[trigger] after.history@[p]@[j] == before.history@[p]@[j]
            &&& after.capture_history == before.capture_history
            &&& after.killers == before.killers
        }),
{
    let piece = before.moved_piece_history@[ply - 1] as int;
    let to = square_slot(m.to.x, m.to.y);
    lemma_slots(m);
    let e = before.history@[piece]@[to] as int;
    assert(-16384 <= before.history@[piece]@[to] <= 16384);
    if e < 16384 {
        bonus_raises_history(e, tdiv(bonus_for(depth), 2));
    }
    assert forall|p: int, j: int|
        0 <= p < 32 && 0 <= j < 256 && (p != piece || j
            != to) implies #[trigger] after.history@[p]@[j] == before.history@[p]@[j] by {
        assert(before.history@[p]@.len() == 256);
        assert(after.history@[p]@.len() == before.history@[p]@.len());
    }
}

/// Table moves that turn out best are trusted more, others less, and least of all where
/// other moves are as good.
pub proof fn table_moves_earn_trust(trust: int, depth: int)
    requires
        -8192 < trust < 8192,
        depth >= 1,
    ensures
        Searcher::tt_reliability(trust, 809) > trust,
        Searcher::tt_reliability(trust, -865) <= trust,
        trust >= 0 ==> Searcher::tt_reliability(trust, -865) < trust,
        Searcher::tt_reliability(0, 809) == 809,
        Searcher::tt_reliability(0, -865) == -865,
        Searcher::multi_cut_penalty(1) == -500,
        -4000 <= Searcher::multi_cut_penalty(depth + 1) <= Searcher::multi_cut_penalty(depth) < 0,
        depth >= 36 ==> Searcher::multi_cut_penalty(depth) == -4000,
{
    let a = abs(809);
    let b = abs(-865);
    assert(trust * a == 809 * trust && trust * b == 865 * trust) by (nonlinear_arith)
        requires
            a == 809,
            b == 865,
    ;
    assert(0 * a == 0 && 0 * b == 0);
}

/// An earlier move counts the less the farther back it is: fully one ply before, 712 of
/// 1024 two plies before, and 410 of 1024 four plies before.
pub proof fn earlier_moves_count_less(bonus: int)
    requires
        bonus >= 0,
    ensures
        weighted(bonus, 0) == bonus,
        1024 * weighted(bonus, 1) <= 712 * bonus < 1024 * weighted(bonus, 1) + 1024,
        1024 * weighted(bonus, 2) <= 410 * bonus < 1024 * weighted(bonus, 2) + 1024,
        weighted(bonus, 2) <= weighted(bonus, 1) <= weighted(bonus, 0),
        weighted(-bonus, 0) == -bonus,
{
    let a = CONT_WEIGHTS@[0] as int;
    let b = CONT_WEIGHTS@[1] as int;
    let c = CONT_WEIGHTS@[2] as int;
    assert(bonus * a == 1024 * bonus && -bonus * a == -1024 * bonus && bonus * b == 712 * bonus
        && bonus * c == 410 * bonus) by (nonlinear_arith)
        requires
            a == 1024,
            b == 712,
            c == 410,
    ;
}

/// Where every correction table tells the same, the evaluation is corrected by that much;
/// in positions with pawn tables, pawns count for 45 percent, material for 25 and minor
/// pieces for 30.
pub proof fn pawn_corrections_are_weighed(s: Searcher, game: GameState, ply: int, last: usize)
    requires
        s.corrhist_mode is PawnBased,
    ensures
        ({
            let row = if game.turn is White {
                0int
            } else {
                1
            };
            let pawns = s.pawn_corrhist@[row]@[corr_slot(game.pawn_hash)] as int;
            let material = s.material_corrhist@[row]@[corr_slot(game.material_hash)] as int;
            let minor = s.minor_corrhist@[row]@[corr_slot(minor_mix(game))] as int;
            let c = s.correction(game, ply, last);
            &&& forall|e: int|
                #![trigger e * 256]
                pawns == e * 256 && material == pawns && minor == pawns ==> c == e
            &&& material == 0 && minor == 0 && pawns >= 0 ==> 25600 * c <= 45 * pawns < 25600 * c
                + 25600
            &&& pawns == 0 && minor == 0 && material >= 0 ==> 25600 * c <= 25 * material < 25600
                * c + 25600
            &&& pawns == 0 && material == 0 && minor >= 0 ==> 25600 * c <= 30 * minor < 25600 * c
                + 25600
        }),
{
}

/// Elsewhere pieces count for 35 percent, minor pieces for 20, and material, the last
/// move and each of two moves before it for 15.
pub proof fn piece_corrections_are_weighed(s: Searcher, game: GameState, ply: int, last: usize)
    requires
        s.corrhist_mode is NonPawnBased,
    ensures
        ({
            let row = if game.turn is White {
                0int
            } else {
                1
            };
            let pieces = s.nonpawn_corrhist@[row]@[corr_slot(
                if game.turn is White {
                    game.white_nonpawn_hash
                } else {
                    game.black_nonpawn_hash
                },
            )] as int;
            let material = s.material_corrhist@[row]@[corr_slot(game.material_hash)] as int;
            let minor = s.minor_corrhist@[row]@[corr_slot(minor_mix(game))] as int;
            let moved = s.lastmove_corrhist@[last as int % 4096] as int;
            let one = s.cont_corr_value(ply, 1);
            let three = s.cont_corr_value(ply, 3);
            let c = s.correction(game, ply, last);
            let sum = 35 * pieces + 20 * minor + 15 * (material + moved + one + three);
            &&& sum >= 0 ==> 25600 * c <= sum < 25600 * c + 25600
            &&& sum <= 0 ==> 25600 * c - 25600 < sum <= 25600 * c
        }),
{
}

/// Deeper results weigh more, up to half.
pub proof fn deep_results_weigh_more(depth: int)
    requires
        depth >= 0,
    ensures
        depth_weight(0) == 1,
        depth_weight(1) == 4,
        depth_weight(2) == 9,
        depth_weight(10) == 121,
        depth >= 11 ==> depth_weight(depth) == 128,
        depth_weight(depth) <= depth_weight(depth + 1),
{
    let d = depth * depth;
    assert(d >= 0 && (depth + 1) * (depth + 1) == d + 2 * depth + 1) by (nonlinear_arith)
        requires
            d == depth * depth,
            depth >= 0,
    ;
    if depth >= 11 {
        assert(d >= 121) by (nonlinear_arith)
            requires
                d == depth * depth,
                depth >= 11,
        ;
    }
}

/// A correction is the average of what it was and what was found, by weight.
pub proof fn corrections_are_averages(entry: int, found: int, weight: int)
    requires
        -32768 <= entry <= 32768,
        -32768 <= found <= 32768,
        1 <= weight <= 128,
    ensures
        ({
            let b = blended(entry, found, weight);
            &&& entry == found ==> b == entry
            &&& entry == 0 && found >= 0 ==> 256 * b <= found * weight < 256 * b + 256
            &&& entry == 0 && found <= 0 ==> 256 * b - 256 < found * weight <= 256 * b
        }),
{
    let x = entry * (256 - weight);
    let y = found * weight;
    assert(entry == found ==> x + y == 256 * entry) by (nonlinear_arith)
        requires
            x == entry * (256 - weight),
            y == found * weight,
    ;
    assert(entry == 0 ==> x == 0) by (nonlinear_arith)
        requires
            x == entry * (256 - weight),
    ;
    assert(-32768 * 128 <= y <= 32768 * 128 && (found >= 0 ==> y >= 0) && (found <= 0 ==> y <= 0))
        by (nonlinear_arith)
        requires
            y == found * weight,
            -32768 <= found <= 32768,
            1 <= weight <= 128,
    ;
}

/// A search stops once its time is over, at the maximum where there is one; and not
/// before, where the rate of nodes leaves time for more and the limit is soft.
pub proof fn time_is_used_up(hot: SearcherHot, clock: ClockReading)
    requires
        hot.time_limit_ms != u128::MAX,
        hot.min_depth_required == 0,
        hot.nodes % 8192 == 0,
    ensures
        hot.maximum_time_ms > 0 && clock.elapsed_ms >= hot.maximum_time_ms ==> hot.must_stop(
            clock,
        ),
        hot.maximum_time_ms == 0 && clock.elapsed_ms >= hot.time_limit_ms ==> hot.must_stop(
            clock,
        ),
        hot.stopped ==> hot.must_stop(clock),
        !hot.stopped && hot.is_soft_limit && hot.nodes <= 8192 && clock.elapsed_ms < (
        if hot.maximum_time_ms > 0 {
            hot.maximum_time_ms
        } else {
            hot.time_limit_ms
        }) ==> !hot.must_stop(clock),
        !hot.stopped && hot.is_soft_limit && hot.nodes >= 8192 && 2 * clock.elapsed_ms < (
        if hot.maximum_time_ms > 0 {
            hot.maximum_time_ms
        } else {
            hot.time_limit_ms
        }) ==> !hot.must_stop(clock),
        !hot.is_soft_limit && (clock.budget_us matches Some(b) && clock.iteration_ms * 2000 > b)
            ==> hot.must_stop(clock),
        hot.must_stop(clock) ==> hot.polled(clock).stopped,
{
    let hard = if hot.maximum_time_ms > 0 {
        hot.maximum_time_ms as int
    } else {
        hot.time_limit_ms as int
    };
    let e = clock.elapsed_ms as int;
    let n = hot.nodes as int;
    if 2 * e < hard && n >= 8192 {
        assert(e * n + 8192 * e <= hard * n) by (nonlinear_arith)
            requires
                2 * e < hard,
                n >= 8192,
                e >= 0,
        ;
    }
}

/// Between two looks at the clock the search goes on.
pub proof fn the_clock_is_read_now_and_then(hot: SearcherHot, clock: ClockReading)
    requires
        !hot.stopped,
        hot.nodes % 8192 != 0,
    ensures
        !hot.must_stop(clock),
        !hot.polled(clock).stopped,
{
}

/// Orthodox chess and its relatives use the pawn tables, and every other game the others.
pub proof fn chess_is_about_pawns()
    ensures
        Searcher::mode_for(Some(Variant::Chess)) is PawnBased,
        Searcher::mode_for(Some(Variant::Classical)) is PawnBased,
        Searcher::mode_for(Some(Variant::CoaIP)) is PawnBased,
        Searcher::mode_for(None) is NonPawnBased,
{
}

/// Pawn moves and captures do not shuffle, nor does a move whose piece has not just come
/// from elsewhere; near the root nothing does.
pub proof fn shuffling_goes_back_and_forth(s: Searcher, game: GameState, m: Move, ply: int)
    requires
        s.shuffles(game, m, ply),
    ensures
        !(m.piece.piece_type is Pawn),
        !game.board@.contains((m.to.x, m.to.y, m.piece)),
        ply >= 20,
        game.halfmove_clock >= 10,
        s.move_history@[ply - 2] is Some,
        s.move_history@[ply - 2]->0.to == m.from,
        s.move_history@[ply - 4] is Some,
        s.move_history@[ply - 4]->0.to == s.move_history@[ply - 2]->0.from,
{
    if game.board@.contains((m.to.x, m.to.y, m.piece)) {
        let i = choose|i: int|
            0 <= i < game.board@.len() && game.board@[i] == (m.to.x, m.to.y, m.piece);
        assert(game.board@[i].0 == m.to.x);
    }
}

/// Under one pawn structure every kind of piece and square has an entry of its own.
pub proof fn pawn_entries_are_apart(
    hash: u64,
    piece: int,
    to: int,
    other: int,
    there: int,
)
    requires
        0 <= piece < 32,
        0 <= to < 256,
        0 <= other < 32,
        0 <= there < 256,
        pawn_slot(hash, piece, to) == pawn_slot(hash, other, there),
    ensures
        piece == other,
        to == there,
        pawn_slot(hash, piece, to) == (hash as int % 8192) * 8192 + piece * 256 + to,
{
}

/// A corrected evaluation stays short of proven wins and losses, and is the evaluation
/// with the correction where that is.
pub proof fn corrected_evaluations_are_no_mates(
    s: Searcher,
    game: GameState,
    raw: int,
    ply: int,
)
    ensures
        -799_999 <= s.corrected(game, raw, ply) <= 799_999,
        ({
            let sum = raw + s.correction(game, ply, s.last_move_index(ply));
            -799_999 <= sum <= 799_999 ==> s.corrected(game, raw, ply) == sum
        }),
{
}

/// A node stands better than two plies before, or the opponent worse than a ply before,
/// exactly where the evaluations say so.
pub proof fn improvement_is_a_higher_evaluation(s: Searcher, ply: int, eval: int)
    ensures
        ply >= 2 ==> (s.improves(ply, eval, false) <==> eval > s.eval_stack@[ply - 2]),
        s.improves(ply, eval, true),
        ply < 2 ==> s.improves(ply, eval, false),
        ply >= 1 ==> (s.opponent_worsens(ply, eval, false) <==> eval + s.eval_stack@[ply - 1]
            > 0),
        !s.opponent_worsens(ply, eval, true),
        ply < 1 ==> !s.opponent_worsens(ply, eval, false),
        ply >= 2 ==> s.eval_before(ply) == s.eval_stack@[ply - 2],
{
}

/// An evaluation is lowered where the opponent's last move has a good history, by one for
/// every 512, and raised where it has a bad one.
pub proof fn evaluations_lean_on_history(s: Searcher, ply: int, eval: int, hash: u64)
    requires
        s.noise_amp == 0,
        ply > 0,
    ensures
        s.stat_score_stack@[ply - 1] == 0 ==> s.smoothed(ply, eval, hash) == eval,
        s.stat_score_stack@[ply - 1] == 512 ==> s.smoothed(ply, eval, hash) == eval - 1,
        s.stat_score_stack@[ply - 1] == -512 ==> s.smoothed(ply, eval, hash) == eval + 1,
        s.stat_score_stack@[ply - 1] >= 0 ==> s.smoothed(ply, eval, hash) <= eval,
        s.stat_score_stack@[ply - 1] <= 0 ==> s.smoothed(ply, eval, hash) >= eval,
        s.smoothed(0, eval, hash) == eval,
{
}

/// A principal variation starts with the move put there and goes on with that of the
/// next ply.
pub proof fn variations_grow_from_the_front(before: Searcher, after: Searcher, ply: int, m: Move)
    requires
        before.wf(),
        0 <= ply < 63,
        after.pv_put(&before, ply, m),
    ensures
        after.pv_line(ply).len() == before.pv_line(ply + 1).len() + 1,
        after.pv_line(ply)[0] == Some(m),
        forall|i: int|
            0 <= i < before.pv_line(ply + 1).len() ==> #[trigger] after.pv_line(ply)[i + 1]
                == before.pv_line(ply + 1)[i],
{
}

/// Only a completed iteration gives its score and depth.
pub proof fn stopped_iterations_keep_the_score(s: Searcher, m: Move, score: i32, depth: usize)
    ensures
        forall|changed: bool| #[trigger]
            s.with_best(m, score, depth, changed).best_move_root == Some(m),
        s.hot.stopped ==> s.with_best(m, score, depth, true).prev_score == s.prev_score,
        s.hot.stopped ==> s.with_best(m, score, depth, true).completed_depth == s.completed_depth,
        !s.hot.stopped ==> s.with_best(m, score, depth, true).prev_score == score,
        !s.hot.stopped ==> s.with_best(m, score, depth, true).completed_depth == depth,
        !s.hot.stopped ==> s.with_best(m, score, depth, false).prev_score == score,
        s.with_best(m, score, depth, false).hot == s.hot,
        s.with_best(m, score, depth, true).hot.last_best_move_depth == depth,
        s.hot.best_move_changes < u64::MAX ==> s.with_best(
            m,
            score,
            depth,
            true,
        ).hot.best_move_changes == s.hot.best_move_changes + 1,
{
}

} // verus!
