//! How results come about: quiescence, the root, and the choice among threads.
use crate::arith::lemma_sum_bounds;
use crate::board::Coordinate;
use crate::game::GameState;
use crate::moves::Move;
use crate::search::conduct::{called_to_escape, has_its_pieces, has_no_pieces};
use crate::search::decisions::TtView;
use crate::search::host::{table_told, SearchHost};
use crate::search::judgement::quiet_high_scores_are_halved;
use crate::search::quiescence::{
    quiet_after, quiet_closed, quiet_left, quiet_tt_score, quietly_skipped, standing, stood,
    QuietPoint, QuietProgress, QuietTerms,
};
use crate::search::results::searched;
use crate::search::root::{
    root_after, root_ended, root_made, root_move_scored, root_reached, root_step, RootPoint,
};
use crate::search::steps::{at, Point};
use crate::search::voting::{
    chosen, key_of, least_score, trusted_vote, vote_term, vote_weight, votes_for,
};
use crate::search::{NegamaxContext, Searcher, StoreContext, ThreadResult};
use vstd::prelude::*;

verus! {

/// In quiescence a stored score closes a node exactly where it is a bound on the right
/// side of beta.
pub proof fn quiet_cutoffs_are_backed(tt: TtView, beta: int)
    ensures
        quiet_tt_score(tt, beta) matches Some(v) ==> {
            &&& tt.hit
            &&& tt.value == Some(v)
            &&& v >= beta ==> tt.bound is LowerBound || tt.bound is Exact
            &&& v < beta ==> tt.bound is UpperBound || tt.bound is Exact
        },
        tt.hit && tt.value is Some && tt.bound is Exact ==> quiet_tt_score(tt, beta) == tt.value,
        tt.hit && tt.value is Some && tt.value->0 >= beta && tt.bound is LowerBound
            ==> quiet_tt_score(tt, beta) == tt.value,
        tt.hit && tt.value is Some && tt.value->0 < beta && tt.bound is UpperBound
            ==> quiet_tt_score(tt, beta) == tt.value,
{
}

/// The value to stand pat on is the evaluation, or a stored score that is no mate and
/// that its bound shows to be closer to the truth.
pub proof fn standing_pat_uses_what_is_known(eval: int, tt: TtView, v: i32)
    requires
        tt.value == Some(v),
        tt.hit,
    ensures
        v > 800_000 || v < -800_000 ==> standing(eval, tt) == eval,
        -800_000 <= v <= 800_000 && tt.bound is Exact ==> standing(eval, tt) == v,
        -800_000 <= v <= 800_000 && tt.bound is LowerBound ==> standing(eval, tt) == (if v > eval {
            v as int
        } else {
            eval
        }),
        -800_000 <= v <= 800_000 && tt.bound is UpperBound ==> standing(eval, tt) == (if v < eval {
            v as int
        } else {
            eval
        }),
{
}

/// Standing pat ends a node exactly where it reaches beta, with a score between beta and
/// the value; else the captures have to beat the value, and alpha where that is higher.
pub proof fn standing_pat_fails_high_or_raises_alpha(
    searcher: Searcher,
    game: GameState,
    ply: int,
    tt: TtView,
    alpha: int,
    beta: int,
    r: (Result<i32, QuietProgress>, i32),
)
    requires
        -1_000_000 <= alpha < beta <= 1_000_000,
        stood(searcher, game, ply, tt, alpha, beta, r),
    ensures
        ({
            let value = standing(searcher.corrected(game, r.1 as int, ply), tt);
            match r.0 {
                Ok(v) => value >= beta && beta <= v <= value,
                Err(p) => {
                    &&& value < beta
                    &&& p.best_value == value
                    &&& p.alpha >= value
                    &&& p.alpha >= alpha
                    &&& p.alpha == value || p.alpha == alpha
                    &&& p.best_move is None
                    &&& p.legal_moves == 0
                },
            }
        }),
{
    let value = standing(searcher.corrected(game, r.1 as int, ply), tt);
    if value >= beta {
        quiet_high_scores_are_halved(value, beta);
    }
}

/// Out of check, a capture elsewhere than on the opponent's last square is left out where
/// the exchanges lose, or where what it wins with 200 more stays below alpha.
pub proof fn hopeless_captures_are_left_out(
    p: QuietProgress,
    last: Option<Coordinate>,
    m: Move,
    gives_check: bool,
    see: int,
)
    requires
        last != Some(m.to),
        p.best_value >= -800_000,
    ensures
        see < 0 ==> quietly_skipped(p, false, last, m, true, gives_check, see),
        p.best_value + see + 200 < p.alpha ==> quietly_skipped(
            p,
            false,
            last,
            m,
            true,
            gives_check,
            see,
        ),
        see >= 0 && p.best_value + see + 200 >= p.alpha ==> !quietly_skipped(
            p,
            false,
            last,
            m,
            true,
            gives_check,
            see,
        ),
        p.legal_moves > 2 && !gives_check ==> quietly_skipped(
            p,
            false,
            last,
            m,
            false,
            gives_check,
            see,
        ),
{
}

/// The value of a quiescence node is the best of what it stood on and of its moves, and
/// every legal move is counted.
pub proof fn better_captures_are_taken(p: QuietProgress, m: Move, score: int)
    requires
        -1_000_000 <= score <= 1_000_000,
        p.legal_moves < usize::MAX,
        p.best_value <= p.alpha,
    ensures
        ({
            let q = quiet_after(p, m, score);
            &&& q.best_value >= score
            &&& q.best_value >= p.best_value
            &&& q.best_value == score || q.best_value == p.best_value
            &&& q.alpha >= score
            &&& q.alpha >= p.alpha
            &&& q.alpha == score || q.alpha == p.alpha
            &&& score > p.alpha ==> q.best_move == Some(m)
            &&& score <= p.alpha ==> q.best_move == p.best_move
            &&& q.legal_moves == p.legal_moves + 1
        }),
{
}

/// A quiescence node that looked at its moves is lost by its distance from the root where
/// it found none and had to escape from check or had no pieces; else it has the best
/// value, or one between beta and it.
pub proof fn quiet_nodes_score_their_best<H: SearchHost>(
    c: QuietPoint<H>,
    terms: QuietTerms,
    b: Point<H>,
    score: i32,
)
    requires
        quiet_closed(c, terms, b, score),
    ensures
        c.found.legal_moves > 0 && c.found.best_value <= terms.beta ==> score
            == c.found.best_value,
        c.found.legal_moves > 0 && c.found.best_value > terms.beta ==> terms.beta <= score
            <= c.found.best_value,
        c.found.legal_moves == 0 && terms.in_check && called_to_escape(&c.at.host) ==> score
            == -900_000 + terms.ply,
        c.found.legal_moves == 0 && has_no_pieces(&c.at.host) ==> score == -900_000 + terms.ply,
        c.found.legal_moves == 0 && !terms.in_check && has_its_pieces(&c.at.host)
            && c.found.best_value <= terms.beta ==> score == c.found.best_value,
{
    if c.found.best_value > terms.beta {
        quiet_high_scores_are_halved(c.found.best_value as int, terms.beta as int);
    }
}

/// What the table is told of a quiescence node: depth zero, and the score as the bound
/// that it is.
pub proof fn quiet_nodes_are_stored_as_they_are<H: SearchHost>(
    c: Point<H>,
    p: QuietProgress,
    terms: QuietTerms,
    b: Point<H>,
    score: i32,
)
    requires
        terms.alpha < terms.beta,
        quiet_left(c, p, terms, b, score),
    ensures
        exists|entry: StoreContext|
            {
                &&& #[trigger] table_told(&c.host, entry, &b.host)
                &&& entry.depth == 0
                &&& entry.hash == terms.hash
                &&& entry.score == score
                &&& entry.best_move == p.best_move
                &&& entry.static_eval == terms.raw
                &&& entry.flag is LowerBound <==> score >= terms.beta
                &&& entry.flag is UpperBound <==> score <= terms.alpha
                &&& entry.flag is Exact <==> terms.alpha < score < terms.beta
            },
{
}

/// A root move is made, and scored by a search of the reply with the sign turned, a ply
/// less deep; a score within the window comes from the full window.
pub proof fn root_moves_are_scored_from_the_other_side<H: SearchHost>(
    a: Point<H>,
    m: Move,
    depth: usize,
    alpha: i32,
    beta: i32,
    first: bool,
    b: Point<H>,
    score: i32,
)
    requires
        depth >= 1,
        -1_000_000 <= alpha < beta <= 1_000_000,
        root_move_scored(a, m, depth, alpha, beta, first, b, score),
    ensures
        exists|
            undo: H::Undo,
            c: Point<H>,
            from: Point<H>,
            ctx: NegamaxContext,
            to: Point<H>,
            w: i32,
        |
            {
                &&& #[trigger] root_made(a, m, undo, c)
                &&& #[trigger] searched(from, ctx, to, w)
                &&& a.host.makes(m, undo, &c.host)
                &&& to.host.unmakes(m, undo, &b.host)
                &&& score == -w
                &&& ctx.ply == 1
                &&& ctx.depth == depth - 1
                &&& ctx.beta == -alpha
                &&& ctx.alpha == -beta || ctx.alpha == -alpha - 1
                &&& alpha < score < beta ==> ctx.alpha == -beta
                &&& first ==> ctx.alpha == -beta && from == c
                &&& !ctx.was_null_move && ctx.excluded_move is None
            },
{
    reveal(root_move_scored);
}

/// A root move was searched on the way, with this score.
pub open spec fn root_move_tried<H: SearchHost>(
    start: RootPoint<H>,
    moves: Seq<Move>,
    depth: usize,
    beta: i32,
    i: int,
    score: i32,
) -> bool {
    exists|c: RootPoint<H>, d: Point<H>|
        root_reached(start, moves, depth, beta, i as nat, c) && #[trigger] root_move_scored(
            c.at,
            moves[i],
            depth,
            c.found.raised,
            beta,
            c.found.none_yet(),
            d,
            score,
        )
}

/// After some root moves the best score is the highest of their scores, and the best move
/// is one that has it; each move was searched but those left out on purpose.
pub proof fn the_best_root_move_is_kept<H: SearchHost>(
    start: RootPoint<H>,
    moves: Seq<Move>,
    depth: usize,
    beta: i32,
    n: nat,
    end: RootPoint<H>,
)
    requires
        start.found.best_score == -1_000_000,
        start.found.best_move is None,
        start.found.legal_moves == 0,
        n <= moves.len() < usize::MAX,
        root_reached(start, moves, depth, beta, n, end),
    ensures
        end.found.legal_moves <= n,
        forall|i: int|
            0 <= i < n && !start.at.searcher.excluded_moves@.contains(
                (moves[i].from.x, moves[i].from.y, moves[i].to.x, moves[i].to.y),
            ) ==> exists|score: i32| #[trigger]
                root_move_tried(start, moves, depth, beta, i, score) && score
                    <= end.found.best_score,
        end.found.best_move matches Some(m) ==> exists|i: int| #[trigger]
            root_move_tried(start, moves, depth, beta, i, end.found.best_score) && 0 <= i < n
                && moves[i] == m && !start.at.searcher.excluded_moves@.contains(
                (m.from.x, m.from.y, m.to.x, m.to.y),
            ),
        end.found.best_move is None ==> end.found.best_score == -1_000_000,
    decreases n,
{
    reveal(root_reached);
    if n > 0 {
        if start.at.searcher.excludes(moves[n - 1]) {
            the_best_root_move_is_kept(start, moves, depth, beta, (n - 1) as nat, end);
        } else {
            let c = choose|c: RootPoint<H>| #[trigger]
                c.open(beta) && root_reached(start, moves, depth, beta, (n - 1) as nat, c)
                    && root_step(c, moves[n - 1], n - 1, depth, beta, end, false);
            the_best_root_move_is_kept(start, moves, depth, beta, (n - 1) as nat, c);
            reveal(root_step);
            let (d, score) = choose|d: Point<H>, score: i32| #[trigger]
                root_move_scored(
                    c.at,
                    moves[n - 1],
                    depth,
                    c.found.raised,
                    beta,
                    c.found.none_yet(),
                    d,
                    score,
                ) && end.found == root_after(c.found, moves[n - 1], score);
            assert(root_reached(start, moves, depth, beta, (n - 1) as nat, c));
            assert(root_move_tried(start, moves, depth, beta, n - 1, score));
            assert(end.found.best_score >= c.found.best_score);
            assert forall|i: int|
                0 <= i < n && !start.at.searcher.excluded_moves@.contains(
                    (moves[i].from.x, moves[i].from.y, moves[i].to.x, moves[i].to.y),
                ) implies exists|score: i32| #[trigger]
                root_move_tried(start, moves, depth, beta, i, score) && score
                    <= end.found.best_score by {
                if i < n - 1 {
                    let s = choose|s: i32| #[trigger]
                        root_move_tried(start, moves, depth, beta, i, s) && s
                            <= c.found.best_score;
                    assert(root_move_tried(start, moves, depth, beta, i, s));
                }
            }
            if score <= c.found.best_score && c.found.best_move is Some {
                let i = choose|i: int| #[trigger]
                    root_move_tried(start, moves, depth, beta, i, c.found.best_score) && 0 <= i < n
                        - 1 && Some(moves[i]) == c.found.best_move;
                assert(root_move_tried(start, moves, depth, beta, i, end.found.best_score));
            }
        }
    }
}

/// At the end the root has the best score, and the table is told the best move with the
/// score as the bound that it is; without moves the root is mated or stalemated.
pub proof fn the_root_scores_its_best_move<H: SearchHost>(
    a: Point<H>,
    end: RootPoint<H>,
    depth: usize,
    alpha: i32,
    beta: i32,
    b: Point<H>,
    score: i32,
)
    requires
        alpha < beta,
        root_ended(a, end, depth, alpha, beta, b, score),
    ensures
        end.found.legal_moves > 0 ==> score == end.found.best_score && exists|entry: StoreContext|
            {
                &&& #[trigger] table_told(&end.at.host, entry, &b.host)
                &&& entry.depth == depth
                &&& entry.score == score
                &&& entry.best_move == end.found.best_move
                &&& entry.is_pv
                &&& entry.flag is LowerBound <==> score >= beta
                &&& entry.flag is UpperBound <==> score <= alpha
                &&& entry.flag is Exact <==> alpha < score < beta
            },
        end.found.legal_moves == 0 && has_no_pieces(&end.at.host) ==> score == -900_000,
        end.found.legal_moves == 0 && called_to_escape(&end.at.host) && has_its_pieces(
            &end.at.host,
        ) ==> score == -900_000 || score == 0,
        end.found.legal_moves == 0 && has_its_pieces(&end.at.host) && score != 0 ==> call_ensures(
            H::is_in_check,
            (&a.host,),
            true,
        ),
{
}

/// A vote counts a point for each point above the lowest score, and fourteen more, each
/// times the depth reached.
pub proof fn votes_go_by_score_and_depth(r: ThreadResult, least: int)
    ensures
        r.completed_depth == 0 ==> vote_weight(r, least) == 0,
        r.completed_depth == 1 ==> vote_weight(r, least) == r.score - least + 14,
        r.score == least ==> vote_weight(r, least) == 14 * r.completed_depth,
        r.score == least + 1 ==> vote_weight(r, least) == 15 * r.completed_depth,
        vote_weight(r, least) - vote_weight(r, least + 1) == r.completed_depth,
{
    let d = r.completed_depth as int;
    let x = r.score - least + 14;
    assert(x * d - (x - 1) * d == d) by (nonlinear_arith);
    assert(d == 0 ==> x * d == 0) by (nonlinear_arith);
    assert(d == 1 ==> x * d == x) by (nonlinear_arith);
    assert(x == 14 ==> x * d == 14 * d) by (nonlinear_arith);
    assert(x == 15 ==> x * d == 15 * d) by (nonlinear_arith);
}

/// Where nothing is proven, the move with the most votes is chosen, and among those the
/// thread with the best vote of its own, as far as its line is long enough.
pub proof fn the_most_votes_win(rs: Seq<ThreadResult>, n: nat)
    requires
        1 <= n <= rs.len(),
        forall|i: int| 0 <= i < rs.len() ==> -800_000 <= (#[trigger] rs[i]).score <= 800_000,
    ensures
        0 <= chosen(rs, n) < n,
        forall|i: int|
            0 <= i < n ==> votes_for(rs, (#[trigger] rs[i]).best_move) <= votes_for(
                rs,
                rs[chosen(rs, n)].best_move,
            ),
        forall|i: int|
            0 <= i < n && votes_for(rs, (#[trigger] rs[i]).best_move) == votes_for(
                rs,
                rs[chosen(rs, n)].best_move,
            ) && rs[i].pv_length > 2 && rs[chosen(rs, n)].pv_length > 2 ==> vote_weight(
                rs[i],
                least_score(rs),
            ) <= vote_weight(rs[chosen(rs, n)], least_score(rs)),
    decreases n,
{
    let last = rs[n - 1];
    assert(-800_000 <= last.score <= 800_000);
    if n > 1 {
        the_most_votes_win(rs, (n - 1) as nat);
        let best = rs[chosen(rs, (n - 1) as nat)];
        assert(-800_000 <= best.score <= 800_000);
        lemma_trusted(rs, (n - 1) as nat);
    } else {
        assert(chosen(rs, 0) == 0);
    }
}

proof fn lemma_trusted(rs: Seq<ThreadResult>, n: nat)
    requires
        1 <= n <= rs.len(),
        forall|i: int| 0 <= i < rs.len() ==> -800_000 <= (#[trigger] rs[i]).score <= 800_000,
    ensures
        0 <= chosen(rs, n) < n,
        forall|i: int|
            0 <= i < n ==> votes_for(rs, (#[trigger] rs[i]).best_move) <= votes_for(
                rs,
                rs[chosen(rs, n)].best_move,
            ),
        forall|i: int|
            0 <= i < n && votes_for(rs, (#[trigger] rs[i]).best_move) == votes_for(
                rs,
                rs[chosen(rs, n)].best_move,
            ) ==> trusted_vote(rs, rs[i]) <= trusted_vote(rs, rs[chosen(rs, n)]),
    decreases n,
{
    let last = rs[n - 1];
    assert(-800_000 <= last.score <= 800_000);
    if n > 1 {
        lemma_trusted(rs, (n - 1) as nat);
        let best = rs[chosen(rs, (n - 1) as nat)];
        assert(-800_000 <= best.score <= 800_000);
    } else {
        assert(chosen(rs, 0) == 0);
    }
}

/// Where some thread has a proven win and none a proven loss, the fastest mate is chosen.
pub proof fn the_fastest_mate_wins(rs: Seq<ThreadResult>, n: nat, k: int)
    requires
        1 <= n <= rs.len(),
        0 <= k < n,
        rs[k].score > 800_000,
        forall|i: int| 0 <= i < rs.len() ==> (#[trigger] rs[i]).score >= -800_000,
    ensures
        0 <= chosen(rs, n) < n,
        forall|i: int| 0 <= i < n ==> (#[trigger] rs[i]).score <= rs[chosen(rs, n)].score,
    decreases n,
{
    let last = rs[n - 1];
    if n > 1 {
        let best = rs[chosen(rs, (n - 1) as nat)];
        lemma_choice_is_early(rs, (n - 1) as nat);
        if k < n - 1 {
            the_fastest_mate_wins(rs, (n - 1) as nat, k);
        } else if exists|j: int| 0 <= j < n - 1 && (#[trigger] rs[j]).score > 800_000 {
            let j = choose|j: int| 0 <= j < n - 1 && (#[trigger] rs[j]).score > 800_000;
            the_fastest_mate_wins(rs, (n - 1) as nat, j);
        } else {
            assert(best.score <= 800_000);
        }
    } else {
        assert(chosen(rs, 0) == 0);
    }
}

proof fn lemma_choice_is_early(rs: Seq<ThreadResult>, n: nat)
    requires
        1 <= n <= rs.len(),
    ensures
        0 <= chosen(rs, n) < n,
    decreases n,
{
    if n > 1 {
        lemma_choice_is_early(rs, (n - 1) as nat);
    } else {
        assert(chosen(rs, 0) == 0);
    }
}

/// Votes are for the squares of a move: a move that nobody found has none, and moves
/// between the same squares have the same. A thread with a line of two moves or less has
/// no say of its own.
pub proof fn votes_are_for_squares(rs: Seq<ThreadResult>, m: Move, other: Move, r: ThreadResult)
    ensures
        (forall|i: int|
            0 <= i < rs.len() ==> (#[trigger] rs[i]).best_move.from != m.from
                || rs[i].best_move.to != m.to) ==> votes_for(rs, m) == 0,
        m.from == other.from && m.to == other.to ==> votes_for(rs, m) == votes_for(rs, other),
        r.pv_length <= 2 ==> trusted_vote(rs, r) == 0,
        r.pv_length > 2 ==> trusted_vote(rs, r) == vote_weight(r, least_score(rs)),
{
    if forall|i: int|
        0 <= i < rs.len() ==> (#[trigger] rs[i]).best_move.from != m.from || rs[i].best_move.to
            != m.to {
        let f = vote_term(key_of(m), least_score(rs));
        assert forall|i: int| 0 <= i < rs.len() implies 0 <= #[trigger] f(rs[i]) <= 0 by {
            assert(rs[i].best_move.from != m.from || rs[i].best_move.to != m.to);
        }
        lemma_sum_bounds(rs, f, 0, 0);
        assert(rs.len() * 0 == 0);
    }
}

} // verus!
