//! How a search deepens: its windows, its use of time, and what an iteration brings.
use crate::moves::{Move, MoveList};
use crate::search::deepening::{
    budget_revised, deepening_step, depth_searched, first_aspiration, iteration_closed,
    iteration_depth_of, iteration_done, legal_step, start_depth_of, start_of_iteration, widened,
    windows_tried, Aspiration, Deepening, Iterated, Listing,
};
use crate::search::host::SearchHost;
use crate::search::multipv::{
    best_first, depth_reached, kept_of, line_inserted, line_scored, lines_go_on, multi_step,
    no_time_for_move, window_of, LineTerms, MultiPoint, MultiTerms,
};
use crate::search::results::searched;
use crate::search::root::root_result;
use crate::search::searcher::{ClockReading, SearcherHot};
use crate::search::steps::Point;
use crate::search::{NegamaxContext, PVLine, Searcher};
use vstd::prelude::*;

verus! {

/// Every second thread searches a ply deeper than the others, and none deeper than asked.
pub proof fn threads_are_staggered(thread: usize, base: usize, max_depth: usize)
    requires
        1 <= base <= max_depth,
    ensures
        thread % 2 == 0 ==> iteration_depth_of(thread, base, max_depth) == base,
        thread % 2 == 1 && base < max_depth ==> iteration_depth_of(thread, base, max_depth) == base
            + 1,
        thread % 2 == 1 && base == max_depth ==> iteration_depth_of(thread, base, max_depth)
            == max_depth,
        thread % 2 == 0 ==> start_depth_of(thread, max_depth) == 1,
        thread % 2 == 1 && max_depth >= 2 ==> start_depth_of(thread, max_depth) == 2,
        start_depth_of(thread, 1) == 1,
{
}

/// The first depth is always searched, and every one without a time limit; else none is
/// begun once the time is over, nor where more than a part of the budget is used.
pub proof fn iterations_need_time(hot: SearcherHot, clock: ClockReading, percent: u64)
    ensures
        hot.min_depth_required > 0 ==> start_of_iteration(hot, clock, percent) is Go,
        hot.time_limit_ms == u128::MAX ==> start_of_iteration(hot, clock, percent) is Go,
        hot.min_depth_required == 0 && hot.time_limit_ms != u128::MAX ==> {
            &&& start_of_iteration(hot, clock, percent) is Stop <==> clock.elapsed_ms
                >= hot.maximum_time_ms
            &&& clock.elapsed_ms < hot.maximum_time_ms && clock.budget_us is None
                ==> start_of_iteration(hot, clock, percent) is Go
            &&& clock.elapsed_ms < hot.maximum_time_ms && clock.budget_us is Some ==> (
            start_of_iteration(hot, clock, 50) is Skip <==> clock.elapsed_ms * 2000
                > clock.budget_us->0)
            &&& clock.elapsed_ms < hot.maximum_time_ms && clock.budget_us is Some ==> (
            start_of_iteration(hot, clock, 90) is Skip <==> clock.elapsed_ms * 10_000 > 9
                * clock.budget_us->0)
        },
{
}

/// The first window reaches 60 to both sides of the last score.
pub proof fn windows_start_around_the_last_score(last: int)
    requires
        -999_940 <= last <= 999_940,
    ensures
        first_aspiration(last).alpha == last - 60,
        first_aspiration(last).beta == last + 60,
        first_aspiration(last).size == 60,
        first_aspiration(last).tries == 0,
{
}

/// A window that failed reaches four times as far on the side where it failed, and as far
/// as before on the other.
pub proof fn windows_widen_where_they_failed(w: Aspiration, last: int, score: int)
    requires
        0 < w.size <= 1000,
        w.tries < 4,
        -1_000_000 <= w.alpha < w.beta <= 1_000_000,
        -990_000 <= last <= 990_000,
    ensures
        ({
            let n = widened(w, last, score);
            &&& n.size == 4 * w.size
            &&& n.tries == w.tries + 1
            &&& score <= w.alpha ==> n.alpha == last - 4 * w.size && n.beta == w.beta
            &&& score > w.alpha ==> n.alpha == w.alpha && n.beta == last + 4 * w.size
        }),
{
}

/// Unless it was stopped, a search to a depth ends with a score strictly within the window
/// it was searched with, or with the widest window.
pub proof fn depths_are_scored_exactly<H: SearchHost>(
    a: Point<H>,
    moves: MoveList,
    depth: usize,
    b: Point<H>,
    ordered: MoveList,
    score: i32,
)
    requires
        depth_searched(a, moves, depth, b, ordered, score),
        !b.searcher.hot.stopped,
    ensures
        exists|from: Point<H>, listed: MoveList, alpha: i32, beta: i32|
            {
                &&& #[trigger] root_result(from, listed, depth, alpha, beta, ordered, b, score)
                &&& alpha < score < beta || (alpha == -1_000_000 && beta == 1_000_000)
            },
{
    if depth != 1 {
        let last = a.searcher.prev_score as int;
        lemma_windows_end(a, moves, depth, last, first_aspiration(last), b, ordered, score);
    }
}

proof fn lemma_windows_end<H: SearchHost>(
    a: Point<H>,
    moves: MoveList,
    depth: usize,
    last: int,
    w: Aspiration,
    b: Point<H>,
    ordered: MoveList,
    score: i32,
)
    requires
        windows_tried(a, moves, depth, last, w, b, ordered, score),
        !b.searcher.hot.stopped,
    ensures
        exists|from: Point<H>, listed: MoveList, alpha: i32, beta: i32|
            {
                &&& #[trigger] root_result(from, listed, depth, alpha, beta, ordered, b, score)
                &&& alpha < score < beta || (alpha == -1_000_000 && beta == 1_000_000)
            },
    decreases 4 - w.tries,
{
    reveal(windows_tried);
    let (c, listed, r) = choose|c: Point<H>, listed: MoveList, r: i32| #[trigger]
        root_result(a, moves, depth, w.alpha, w.beta, listed, c, r) && if c.searcher.hot.stopped
            || w.alpha < r < w.beta {
            b == c && ordered == listed && score == r
        } else {
            let next = widened(w, last, r as int);
            if next.size > 1000 || next.tries >= 4 || next.tries <= w.tries {
                root_result(c, listed, depth, -1_000_000i32, 1_000_000i32, ordered, b, score)
            } else {
                windows_tried(c, listed, depth, last, next, b, ordered, score)
            }
        };
    if c.searcher.hot.stopped || w.alpha < r < w.beta {
        assert(root_result(a, moves, depth, w.alpha, w.beta, ordered, b, score));
    } else {
        let next = widened(w, last, r as int);
        if next.size > 1000 || next.tries >= 4 || next.tries <= w.tries {
        } else {
            lemma_windows_end(c, listed, depth, last, next, b, ordered, score);
        }
    }
}

/// A completed iteration brings the head of its principal variation and its score; one
/// that was stopped keeps the score of the one before.
pub proof fn iterations_bring_their_best_move<H: SearchHost>(
    a: Point<H>,
    moves: MoveList,
    depth: usize,
    opens: bool,
    found: Iterated,
    b: Point<H>,
    ordered: MoveList,
    after: Iterated,
    score: i32,
)
    requires
        iteration_done(a, moves, depth, opens, found, b, ordered, after, score),
    ensures
        b.searcher.pv_table@[0] matches Some(m) ==> {
            &&& after.best_move == m
            &&& b.searcher.best_move_root == Some(m)
            &&& !b.searcher.hot.stopped ==> after.best_score == score && b.searcher.prev_score
                == score && b.searcher.completed_depth == depth
            &&& b.searcher.hot.stopped ==> after.best_score == found.best_score
        },
        b.searcher.pv_table@[0] is None ==> after == found,
        opens ==> b.searcher.hot.min_depth_required == 0,
{
    reveal(iteration_done);
}

/// A search ends where it was stopped or has found a mate; without a time limit it goes
/// on to the last depth.
pub proof fn searches_go_on_until_they_need_not<H: SearchHost>(
    e: Point<H>,
    depth: usize,
    best: i32,
    legal: usize,
    last: bool,
    b: Point<H>,
    more: bool,
)
    requires
        iteration_closed(e, depth, best, legal, last, b, more),
    ensures
        e.searcher.hot.stopped ==> !more,
        best > 800_000 || best < -800_000 ==> !more,
        last ==> !more,
        !e.searcher.hot.stopped && -800_000 <= best <= 800_000 && e.searcher.hot.time_limit_ms
            == u128::MAX && !last ==> more,
{
}

/// A root move found illegal after it is made is not listed; any other is, in order.
pub proof fn only_illegal_moves_are_dropped<H: SearchHost>(
    c: Listing<H>,
    m: Move,
    d: Listing<H>,
)
    requires
        legal_step(c, m, d),
    ensures
        d.legal == c.legal || d.legal == c.legal.push(m),
        (forall|h: H, answer: bool| #[trigger]
            call_ensures(H::is_move_illegal, (&h,), answer) ==> !answer) ==> d.legal
            == c.legal.push(m),
        (forall|h: H, answer: bool| #[trigger]
            call_ensures(H::is_move_illegal, (&h,), answer) ==> answer) ==> d.legal == c.legal,
{
}

/// A line goes among the others by its score, behind those that are as good; none is lost.
pub proof fn lines_stay_in_order(before: Seq<PVLine>, line: PVLine, after: Seq<PVLine>) -> (k: int)
    requires
        best_first(before),
        line_inserted(before, line, after),
    ensures
        best_first(after),
        after.len() == before.len() + 1,
        0 <= k < after.len(),
        after[k] == line,
        forall|i: int| 0 <= i < k ==> #[trigger] after[i] == before[i],
        forall|i: int|
            k < i < after.len() ==> #[trigger] after[i] == before[i - 1] && after[i].score
                < line.score,
{
    let k = choose|k: int|
        0 <= k <= before.len() && #[trigger] before.insert(k, line) == after && (forall|i: int|
            0 <= i < k ==> (#[trigger] before[i]).score >= line.score) && (k < before.len()
            ==> before[k].score < line.score);
    assert(after[k] == line);
    assert forall|i: int| k < i < after.len() implies #[trigger] after[i] == before[i - 1]
        && after[i].score < line.score by {
        assert(before[k].score >= before[i - 1].score);
    }
    assert forall|i: int| 0 <= i < k implies #[trigger] after[i] == before[i] && after[i].score
        >= line.score by {
        assert(before[i].score >= line.score);
    }
    assert forall|i: int, j: int| 0 <= i < j < after.len() implies after[i].score
        >= after[j].score by {
        if j < k {
            assert(before[i].score >= before[j].score);
        } else if i > k {
            assert(before[i - 1].score >= before[j - 1].score);
        }
    }
    k
}

/// A line's move is made, and scored by a search of the reply with the sign turned, a ply
/// less deep; unless it was stopped, a score that counts is exact.
pub proof fn lines_are_scored_exactly<H: SearchHost>(
    a: Point<H>,
    m: Move,
    depth: usize,
    first: bool,
    alpha: i32,
    beta: i32,
    b: Point<H>,
    score: i32,
)
    requires
        depth >= 1,
        -1_000_000 <= alpha < beta <= 1_000_000,
        line_scored(a, m, depth, first, alpha, beta, b, score),
        !b.searcher.hot.stopped,
    ensures
        exists|from: Point<H>, ctx: NegamaxContext, to: Point<H>, w: i32|
            {
                &&& #[trigger] searched(from, ctx, to, w)
                &&& score == -w
                &&& ctx.ply == 1
                &&& ctx.depth == depth - 1
                &&& (ctx.alpha == -1_000_000 && ctx.beta == 1_000_000) || (first && ctx.alpha
                    == -beta && ctx.beta == -alpha && alpha < score < beta) || (!first && score
                    <= alpha && ctx.beta == -alpha && ctx.alpha == -alpha - 1)
            },
{
    reveal(line_scored);
}

/// The best of the lines are kept, as many as wanted.
pub proof fn the_best_lines_are_kept(
    kept_lines: Seq<PVLine>,
    found: Seq<PVLine>,
    wanted: int,
    depth: usize,
)
    requires
        wanted >= 0,
        best_first(found),
        kept_of(kept_lines, found, wanted, depth),
    ensures
        kept_lines.len() <= wanted,
        kept_lines.len() == wanted || kept_lines.len() == found.len(),
        forall|i: int, j: int|
            0 <= i < kept_lines.len() && kept_lines.len() <= j < found.len() ==> (
            #[trigger] kept_lines[i]).score >= (#[trigger] found[j]).score,
        forall|i: int|
            0 <= i < kept_lines.len() ==> (#[trigger] kept_lines[i]).mv == found[i].mv
                && kept_lines[i].score == found[i].score,
        best_first(kept_lines),
{
    assert forall|i: int, j: int|
        0 <= i < kept_lines.len() && kept_lines.len() <= j < found.len() implies (
    #[trigger] kept_lines[i]).score >= (#[trigger] found[j]).score by {
        assert(found[i].score >= found[j].score);
    }
    assert forall|i: int, j: int| 0 <= i < j < kept_lines.len() implies kept_lines[i].score
        >= kept_lines[j].score by {
        assert(found[i].score >= found[j].score);
    }
}

/// The lines below the best are searched with a window above the last wanted one; from
/// the fifth depth on the best is searched with a window of 60 around the last score.
pub proof fn later_lines_have_to_beat_the_last_wanted(
    depth: usize,
    wanted: usize,
    v: i32,
    to_beat: i32,
)
    requires
        -999_000 <= v <= 999_000,
        -1_000_000 <= to_beat < 1_000_000,
    ensures
        window_of((LineTerms { depth, wanted, last: None }), true, to_beat) == (
            -1_000_000i32,
            1_000_000i32,
        ),
        depth < 5 ==> window_of((LineTerms { depth, wanted, last: Some(v) }), true, to_beat) == (
            -1_000_000i32,
            1_000_000i32,
        ),
        depth >= 5 ==> window_of((LineTerms { depth, wanted, last: Some(v) }), true, to_beat) == (
            (v - 60) as i32,
            (v + 60) as i32,
        ),
        forall|last: Option<i32>| #[trigger]
            window_of((LineTerms { depth, wanted, last }), false, to_beat) == (
                to_beat,
                1_000_000i32,
            ),
{
}

/// A search for lines takes no further move once its time or its budget is over, and no
/// further depth once half its time is.
pub proof fn lines_need_time<H: SearchHost>(
    hot: SearcherHot,
    clock: ClockReading,
    host: &H,
    searcher: Searcher,
    best: Seq<PVLine>,
    last: bool,
    more: bool,
)
    requires
        lines_go_on(host, searcher, best, last, more),
    ensures
        no_time_for_move(hot, clock) <==> (hot.maximum_time_ms > 0 && clock.elapsed_ms
            > hot.maximum_time_ms) || (clock.budget_us is Some && clock.elapsed_ms * 1000
            > clock.budget_us->0),
        last ==> !more,
        best.len() > 0 && (best[0].score > 800_000 || best[0].score < -800_000) ==> !more,
        searcher.hot.time_limit_ms == u128::MAX && !last && best.len() == 0 ==> more,
        searcher.hot.time_limit_ms == u128::MAX && !last && best.len() > 0 && -800_000
            <= best[0].score <= 800_000 ==> more,
        more && searcher.hot.time_limit_ms != u128::MAX ==> exists|clock: ClockReading| #[trigger]
            call_ensures(H::read_clock, (host,), clock) && 2 * clock.elapsed_ms
                < searcher.hot.time_limit_ms,
{
}

/// Lines claim no more depth than was asked for or reached.
pub proof fn lines_claim_the_depth_reached(depth: usize, seldepth: usize)
    requires
        depth >= 1,
    ensures
        1 <= depth_reached(depth, seldepth) <= depth,
        seldepth >= depth ==> depth_reached(depth, seldepth) == depth,
        1 <= seldepth < depth ==> depth_reached(depth, seldepth) == seldepth,
        seldepth == 0 ==> depth_reached(depth, seldepth) == 1,
{
}

/// The game's clock shows the same wherever it is read.
pub open spec fn clock_shows<H: SearchHost>(clock: ClockReading) -> bool {
    forall|h: H, answer: ClockReading| #[trigger]
        call_ensures(H::read_clock, (&h,), answer) ==> answer == clock
}

/// Once the first depth is complete no further one is begun where the time is over, nor
/// where nine tenths of the budget are used, or half of it where the limit is hard.
pub proof fn deepening_stops_in_time<H: SearchHost>(
    a: Deepening<H>,
    thread: usize,
    base: usize,
    opens: bool,
    max_depth: usize,
    b: Deepening<H>,
    more: bool,
    clock: ClockReading,
)
    requires
        clock_shows::<H>(clock),
        a.at.searcher.hot.min_depth_required == 0,
        a.at.searcher.hot.time_limit_ms != u128::MAX,
        deepening_step(a, thread, base, opens, max_depth, b, more),
        ({
            ||| clock.elapsed_ms >= a.at.searcher.hot.maximum_time_ms
            ||| !a.at.searcher.hot.is_soft_limit && clock.budget_us is Some && clock.elapsed_ms
                * 2000 > clock.budget_us->0
            ||| clock.budget_us is Some && clock.elapsed_ms * 10_000 > 9 * clock.budget_us->0
        }),
    ensures
        !more,
        b.found == a.found,
        b.moves == a.moves,
{
    reveal(deepening_step);
}

/// A search for lines stops likewise, at 76 percent of the budget, or at 60 where the
/// limit is hard.
pub proof fn searches_for_lines_stop_in_time<H: SearchHost>(
    a: MultiPoint<H>,
    terms: MultiTerms,
    base: usize,
    b: MultiPoint<H>,
    more: bool,
    clock: ClockReading,
)
    requires
        clock_shows::<H>(clock),
        a.at.searcher.hot.min_depth_required == 0,
        a.at.searcher.hot.time_limit_ms != u128::MAX,
        multi_step(a, terms, base, b, more),
        ({
            ||| clock.elapsed_ms >= a.at.searcher.hot.maximum_time_ms
            ||| !a.at.searcher.hot.is_soft_limit && clock.budget_us is Some && clock.elapsed_ms
                * 100_000 > 60 * clock.budget_us->0
            ||| clock.budget_us is Some && clock.elapsed_ms * 100_000 > 76 * clock.budget_us->0
        }),
    ensures
        !more,
        b.best == a.best,
        b.moves == a.moves,
{
    reveal(multi_step);
}

/// A budget that is used up stops the search; else the score goes into the record.
pub proof fn used_up_budgets_stop<H: SearchHost>(
    before: &H,
    searcher: Searcher,
    depth: usize,
    score: i32,
    legal: usize,
    used_up: bool,
    after: &H,
    later: Searcher,
)
    requires
        budget_revised(before, searcher, depth, score, legal, used_up, after, later),
        searcher.hot.iter_idx < 4,
        searcher.hot.iter_values@.len() == 4,
    ensures
        used_up ==> later.hot.stopped,
        !used_up ==> later.hot.stopped == searcher.hot.stopped,
        !used_up ==> later.hot.iter_values@[searcher.hot.iter_idx as int] == score,
        !used_up && searcher.hot.iter_idx < 3 ==> later.hot.iter_idx == searcher.hot.iter_idx + 1,
        !used_up && searcher.hot.iter_idx == 3 ==> later.hot.iter_idx == 0,
        !used_up && searcher.hot.best_previous_average_score == 0
            ==> later.hot.best_previous_average_score == score,
        later.hot.best_move_changes == 0,
{
}

} // verus!
