//! Iterative deepening with aspiration windows.
use crate::arith::{clamp, clamp_i32};
use crate::game::GameState;
use crate::moves::{Move, MoveList};
use crate::search::decisions::is_score;
use crate::search::host::{raw_eval, raw_eval_of, SearchHost};
use crate::search::params::{
    DEFAULT_ASPIRATION_FAIL_MULT, DEFAULT_ASPIRATION_MAX_WINDOW, DEFAULT_ASPIRATION_WINDOW,
};
use crate::search::root::{lemma_same_members, negamax_root, root_result, squares_of};
use crate::search::searcher::{ClockReading, Searcher, SearcherHot};
use crate::search::steps::{
    at, game_kept, lemma_back_move, lemma_back_same, lemma_back_steady, lemma_back_then,
    taken_back, taking_back_keeps_the_game, Point,
};
use crate::search::{decisive, is_decisive, SearchStats, INFINITY};
use vstd::prelude::*;

verus! {

/// Whether a thread searches one ply deeper than the others, so that threads
/// do not all do the same.
pub open spec fn looks_ahead(thread_id: usize) -> bool {
    thread_id % 2 == 1
}

/// The depth that a thread starts with.
pub open spec fn start_depth_of(thread_id: usize, max_depth: usize) -> usize {
    if looks_ahead(thread_id) {
        if max_depth < 2 {
            max_depth
        } else {
            2
        }
    } else {
        1
    }
}

pub fn start_depth(thread_id: usize, max_depth: usize) -> (r: usize)
    ensures
        r == start_depth_of(thread_id, max_depth),
{
    if thread_id % 2 == 1 {
        if max_depth < 2 {
            max_depth
        } else {
            2
        }
    } else {
        1
    }
}

/// The depth that a thread searches in an iteration.
pub open spec fn iteration_depth_of(thread_id: usize, base: usize, max_depth: usize) -> usize {
    if looks_ahead(thread_id) {
        if base < max_depth {
            (base + 1) as usize
        } else {
            max_depth
        }
    } else {
        base
    }
}

pub fn iteration_depth(thread_id: usize, base: usize, max_depth: usize) -> (r: usize)
    requires
        base <= max_depth,
    ensures
        r == iteration_depth_of(thread_id, base, max_depth),
        base <= r <= max_depth,
{
    if thread_id % 2 == 1 && base < max_depth {
        base + 1
    } else {
        base
    }
}

/// Whether an iteration is started.
#[derive(Clone, Copy, PartialEq, Eq, Structural, Debug)]
pub enum IterationStart {
    Go,
    /// The time is over.
    Stop,
    /// Too little of the budget is left.
    Skip,
}

/// Before the first depth is complete, and without a time limit, every
/// iteration is started. Else the time must not be over, and no more than
/// `percent` of the budget used.
pub open spec fn start_of_iteration(
    hot: SearcherHot,
    clock: ClockReading,
    percent: u64,
) -> IterationStart {
    if hot.min_depth_required != 0 || hot.time_limit_ms == u128::MAX {
        IterationStart::Go
    } else if clock.elapsed_ms >= hot.maximum_time_ms {
        IterationStart::Stop
    } else if clock.budget_us matches Some(b) && clock.elapsed_ms * 100_000 > b * percent {
        IterationStart::Skip
    } else {
        IterationStart::Go
    }
}

pub fn judge_start(hot: &SearcherHot, clock: &ClockReading, percent: u64) -> (r: IterationStart)
    requires
        percent <= 100,
    ensures
        r == start_of_iteration(*hot, *clock, percent),
{
    if hot.min_depth_required != 0 || hot.time_limit_ms == u128::MAX {
        return IterationStart::Go;
    }
    if clock.elapsed_ms as u128 >= hot.maximum_time_ms {
        return IterationStart::Stop;
    }
    if let Some(b) = clock.budget_us {
        let wide: u128 = b as u128;
        let pct: u128 = percent as u128;
        assert(wide * pct <= 0xffff_ffff_ffff_ffff * 100) by (nonlinear_arith)
            requires
                0 <= wide <= 0xffff_ffff_ffff_ffff,
                0 <= pct <= 100,
        ;
        if clock.elapsed_ms as u128 * 100_000 > wide * pct {
            return IterationStart::Skip;
        }
    }
    IterationStart::Go
}

/// Figures of a search: the searcher's nodes, and what the game tells of the table.
pub open spec fn stats_told<H: SearchHost>(searcher: &Searcher, host: &H, r: SearchStats) -> bool {
    &&& r.nodes == searcher.hot.nodes
    &&& call_ensures(H::tt_capacity, (host,), r.tt_capacity)
    &&& call_ensures(H::tt_used_entries, (host,), r.tt_used)
    &&& call_ensures(H::tt_fill_permille, (host,), r.tt_fill_permille)
}

/// Figures of a search.
pub fn build_search_stats<H: SearchHost>(searcher: &Searcher, host: &H) -> (r: SearchStats)
    ensures
        stats_told(searcher, host, r),
{
    SearchStats {
        nodes: searcher.hot.nodes,
        tt_capacity: host.tt_capacity(),
        tt_used: host.tt_used_entries(),
        tt_fill_permille: host.tt_fill_permille(),
    }
}

/// Every one of `some` is among `all`.
pub open spec fn among(some: Seq<Move>, all: Seq<Move>) -> bool {
    forall|i: int| 0 <= i < some.len() ==> all.contains(#[trigger] some[i])
}

/// The moves that are not marked as illegal.
pub open spec fn kept(all: Seq<Move>, illegal: Seq<bool>) -> Seq<Move>
    decreases all.len(),
{
    if all.len() == 0 {
        Seq::empty()
    } else if illegal[all.len() - 1] {
        kept(all.drop_last(), illegal)
    } else {
        kept(all.drop_last(), illegal).push(all.last())
    }
}

/// Only the marks of the moves count.
proof fn lemma_kept_by(all: Seq<Move>, a: Seq<bool>, b: Seq<bool>)
    requires
        forall|i: int| 0 <= i < all.len() ==> a[i] == b[i],
    ensures
        kept(all, a) == kept(all, b),
    decreases all.len(),
{
    if all.len() > 0 {
        lemma_kept_by(all.drop_last(), a, b);
    }
}

/// The moves that are kept are among all, and as distinct.
proof fn lemma_kept(all: Seq<Move>, illegal: Seq<bool>)
    ensures
        among(kept(all, illegal), all),
        all.no_duplicates() ==> kept(all, illegal).no_duplicates(),
    decreases all.len(),
{
    if all.len() > 0 {
        let front = all.drop_last();
        let part = kept(front, illegal);
        lemma_kept(front, illegal);
        assert forall|i: int| 0 <= i < part.len() implies all.contains(#[trigger] part[i]) by {
            let j = choose|j: int| 0 <= j < front.len() && #[trigger] front[j] == part[i];
            assert(all[j] == part[i]);
        }
        assert(all.contains(all.last())) by {
            assert(all[all.len() - 1] == all.last());
        }
        if all.no_duplicates() && part.contains(all.last()) {
            let i = choose|i: int| 0 <= i < part.len() && #[trigger] part[i] == all.last();
            assert(front.contains(part[i]));
            let j = choose|j: int| 0 <= j < front.len() && #[trigger] front[j] == part[i];
            assert(all[j] == all[all.len() - 1]);
        }
    }
}

/// A game, and the legal moves found so far.
pub struct Listing<H> {
    pub host: H,
    pub legal: Seq<Move>,
}

/// A move is made and taken back, and kept unless the game finds it illegal.
pub open spec fn legal_step<H: SearchHost>(c: Listing<H>, m: Move, d: Listing<H>) -> bool {
    exists|undo: H::Undo, made: H, illegal: bool|
        #![trigger
            c.host.makes(m, undo, &made),
            call_ensures(H::is_move_illegal, (&made,), illegal)
        ]
        c.host.makes(m, undo, &made) && call_ensures(H::is_move_illegal, (&made,), illegal)
            && made.unmakes(m, undo, &d.host) && d.legal == (if illegal {
            c.legal
        } else {
            c.legal.push(m)
        })
}

/// The first `n` moves were tried.
pub open spec fn legal_reached<H: SearchHost>(
    start: Listing<H>,
    all: Seq<Move>,
    n: nat,
    end: Listing<H>,
) -> bool
    decreases n,
{
    if n == 0 {
        end == start
    } else {
        let m = all[n - 1];
        exists|c: Listing<H>| #[trigger]
            legal_step(c, m, end) && legal_reached(start, all, (n - 1) as nat, c)
    }
}

/// These are the legal moves of a game, which stands at `later` after that.
#[verifier::opaque]
pub open spec fn legal_listed<H: SearchHost>(host: H, legal: Seq<Move>, later: H) -> bool {
    exists|all: MoveList| #[trigger]
        call_ensures(H::get_legal_moves, (&host,), all) && legal_reached(
            Listing { host, legal: Seq::empty() },
            all@,
            all@.len(),
            Listing { host: later, legal },
        )
}

/// The moves of the position that do not leave a royal piece in check, as the
/// game tells once they are made.
pub fn legal_root_moves<H: SearchHost>(host: &mut H) -> (r: MoveList)
    ensures
        legal_listed(*old(host), r@, *final(host)),
        taken_back(*old(host), *final(host)),
        exists|all: MoveList, illegal: Seq<bool>|
            #![trigger call_ensures(H::get_legal_moves, (&*old(host),), all), kept(all@, illegal)]
            call_ensures(H::get_legal_moves, (&*old(host),), all) && r@ == kept(all@, illegal)
                && illegal.len() == all@.len() && among(r@, all@) && (all@.no_duplicates()
                ==> r@.no_duplicates()),
{
    let ghost h0 = *host;
    let all = host.get_legal_moves();
    let mut legal: MoveList = Vec::new();
    let mut i: usize = 0;
    let ghost start = Listing { host: h0, legal: Seq::<Move>::empty() };
    let ghost mut flags: Seq<bool> = Seq::empty();
    proof {
        assert(all@.take(0) =~= Seq::empty());
        assert(legal@ =~= Seq::<Move>::empty());
        lemma_back_same(h0);
    }
    while i < all.len()
        invariant
            i <= all@.len(),
            flags.len() == i,
            legal@ == kept(all@.take(i as int), flags),
            taken_back(h0, *host),
            legal_reached(start, all@, i as nat, Listing { host: *host, legal: legal@ }),
        decreases all@.len() - i,
    {
        let m = all[i];
        let ghost c = Listing { host: *host, legal: legal@ };
        let undo = host.make_move(&m);
        let ghost made = *host;
        let ghost u = undo;
        let illegal = host.is_move_illegal();
        host.undo_move(&m, undo);
        proof {
            lemma_back_same(made);
            lemma_back_move(c.host, made, made, *host, m, u);
            lemma_back_then(h0, c.host, *host);
            let before = flags;
            flags = before.push(illegal);
            assert(all@.take(i + 1).drop_last() =~= all@.take(i as int));
            lemma_kept_by(all@.take(i as int), before, flags);
        }
        if !illegal {
            legal.push(m);
        }
        i += 1;
        proof {
            assert(c.host.makes(m, u, &made) && call_ensures(
                H::is_move_illegal,
                (&made,),
                illegal,
            ));
            assert(legal_step(c, all@[i - 1], Listing { host: *host, legal: legal@ }));
        }
    }
    proof {
        assert(all@.take(i as int) =~= all@);
        lemma_kept(all@, flags);
        assert(legal@ == kept(all@, flags));
        reveal(legal_listed);
        assert(call_ensures(H::get_legal_moves, (&h0,), all));
    }
    legal
}

/// The first move of the principal variation is what it was, or one of the
/// moves.
pub open spec fn head_among(now: &Searcher, before: &Searcher, moves: Seq<Move>) -> bool {
    ||| now.pv_table@[0] == before.pv_table@[0]
    ||| now.pv_table@[0] is Some && moves.contains(now.pv_table@[0]->0)
}

/// The principal variation starts with one of the moves.
pub open spec fn heads_with(searcher: &Searcher, moves: Seq<Move>) -> bool {
    searcher.pv_table@[0] is Some && moves.contains(searcher.pv_table@[0]->0)
}

/// Some of the moves are not left out.
pub open spec fn searches_some(searcher: &Searcher, moves: Seq<Move>) -> bool {
    exists|m: Move| moves.contains(m) && !(#[trigger] searcher.excludes(m))
}

proof fn lemma_between(a: &Searcher, b: &Searcher)
    requires
        b.goes_on_at_root(a),
    ensures
        b.goes_on_between(a),
{
    reveal(Searcher::bearings);
}

/// A window around the last score, and how often it was widened.
pub struct Aspiration {
    pub size: i32,
    pub alpha: i32,
    pub beta: i32,
    pub tries: u32,
}

/// The first window.
pub open spec fn first_aspiration(last: int) -> Aspiration {
    Aspiration {
        size: DEFAULT_ASPIRATION_WINDOW,
        alpha: clamp(last - DEFAULT_ASPIRATION_WINDOW, -INFINITY, INFINITY as int) as i32,
        beta: clamp(last + DEFAULT_ASPIRATION_WINDOW, -INFINITY, INFINITY as int) as i32,
        tries: 0,
    }
}

/// The window after a score that failed low or high: its size grows, and the bound
/// that failed moves away from the last score.
pub open spec fn widened(w: Aspiration, last: int, score: int) -> Aspiration {
    let size = w.size * DEFAULT_ASPIRATION_FAIL_MULT;
    Aspiration {
        size: size as i32,
        alpha: (if score <= w.alpha {
            clamp(last - size, -INFINITY, INFINITY as int)
        } else {
            w.alpha as int
        }) as i32,
        beta: (if score <= w.alpha {
            w.beta as int
        } else {
            clamp(last + size, -INFINITY, INFINITY as int)
        }) as i32,
        tries: (w.tries + 1) as u32,
    }
}

/// The root is searched with a window that is widened where the score fails, and
/// with the full window where it grew too wide or failed too often.
#[verifier::opaque]
pub open spec fn windows_tried<H: SearchHost>(
    a: Point<H>,
    moves: MoveList,
    depth: usize,
    last: int,
    w: Aspiration,
    b: Point<H>,
    ordered: MoveList,
    score: i32,
) -> bool
    decreases 4 - w.tries,
{
    exists|c: Point<H>, listed: MoveList, r: i32| #[trigger]
        root_result(a, moves, depth, w.alpha, w.beta, listed, c, r) && if c.searcher.hot.stopped
            || w.alpha < r < w.beta {
            b == c && ordered == listed && score == r
        } else {
            let next = widened(w, last, r as int);
            if next.size > DEFAULT_ASPIRATION_MAX_WINDOW || next.tries >= 4 || next.tries
                <= w.tries {
                root_result(
                    c,
                    listed,
                    depth,
                    (-INFINITY) as i32,
                    INFINITY,
                    ordered,
                    b,
                    score,
                )
            } else {
                windows_tried(c, listed, depth, last, next, b, ordered, score)
            }
        }
}

/// A search of the root to a depth may have this score: the first depth is searched
/// with the full window, later ones with a window around the last score.
pub open spec fn depth_searched<H: SearchHost>(
    a: Point<H>,
    moves: MoveList,
    depth: usize,
    b: Point<H>,
    ordered: MoveList,
    score: i32,
) -> bool {
    if depth == 1 {
        root_result(a, moves, depth, (-INFINITY) as i32, INFINITY, ordered, b, score)
    } else {
        let last = a.searcher.prev_score as int;
        windows_tried(a, moves, depth, last, first_aspiration(last), b, ordered, score)
    }
}

/// A search with a window, and what follows from its score.
proof fn lemma_window<H: SearchHost>(
    a: Point<H>,
    moves: MoveList,
    depth: usize,
    last: int,
    w: Aspiration,
    c: Point<H>,
    listed: MoveList,
    r: i32,
    b: Point<H>,
    ordered: MoveList,
    score: i32,
)
    requires
        root_result(a, moves, depth, w.alpha, w.beta, listed, c, r),
        w.tries < 4,
        if c.searcher.hot.stopped || w.alpha < r < w.beta {
            b == c && ordered == listed && score == r
        } else {
            let next = widened(w, last, r as int);
            if next.size > DEFAULT_ASPIRATION_MAX_WINDOW || next.tries >= 4 {
                root_result(
                    c,
                    listed,
                    depth,
                    (-INFINITY) as i32,
                    INFINITY,
                    ordered,
                    b,
                    score,
                )
            } else {
                windows_tried(c, listed, depth, last, next, b, ordered, score)
            }
        },
    ensures
        windows_tried(a, moves, depth, last, w, b, ordered, score),
{
    reveal_with_fuel(windows_tried, 2);
}

/// Searches the root to a depth: the first depth with the full window, later
/// ones with a window around the last score that widens where it fails, and
/// with the full window after that.
pub fn search_depth<H: SearchHost>(
    searcher: &mut Searcher,
    host: &mut H,
    depth: usize,
    moves: &mut MoveList,
) -> (r: i32)
    requires
        old(searcher).valid(),
        1 <= depth,
    ensures
        final(searcher).goes_on_between(old(searcher)),
        is_score(r as int),
        final(moves)@.to_multiset() == old(moves)@.to_multiset(),
        head_among(final(searcher), old(searcher), old(moves)@),
        // A score of a search that was not stopped is that of a move, unless it is
        // the lowest.
        !final(searcher).hot.stopped && r > -INFINITY && searches_some(old(searcher), old(moves)@)
            ==> heads_with(final(searcher), old(moves)@),
        // Time does not stop the first depth.
        old(searcher).bearings().is_untimed() ==> final(searcher).hot.stopped == old(
            searcher,
        ).hot.stopped,
        final(searcher).excluded_moves@ == old(searcher).excluded_moves@,
        depth_searched(
            at(*old(host), *old(searcher)),
            *old(moves),
            depth,
            at(*final(host), *final(searcher)),
            *final(moves),
            r,
        ),
        taken_back(*old(host), *final(host)),
{
    let ghost a = at(*host, *searcher);
    let ghost m0 = *moves;
    proof {
        reveal(Searcher::bearings);
        lemma_back_same(a.host);
    }
    if depth == 1 {
        let r: i32 = negamax_root(searcher, host, depth, -INFINITY, INFINITY, moves);
        proof {
            lemma_between(old(searcher), searcher);
        }
        return r;
    }
    let last: i32 = searcher.last_score();
    let mut size: i32 = DEFAULT_ASPIRATION_WINDOW;
    let mut alpha: i32 = clamp_i32(last - size, -INFINITY, INFINITY);
    let mut beta: i32 = clamp_i32(last + size, -INFINITY, INFINITY);
    let mut tries: u32 = 0;
    let ghost first = Aspiration { size, alpha, beta, tries };
    assert(first == first_aspiration(last as int));
    loop
        invariant
            1 < depth,
            tries < 4,
            a == at(*old(host), *old(searcher)),
            m0 == *old(moves),
            last == a.searcher.prev_score,
            first == first_aspiration(last as int),
            taken_back(a.host, *host),
            searcher.goes_on_between(old(searcher)),
            searcher.excluded_moves@ == old(searcher).excluded_moves@,
            -INFINITY <= last <= INFINITY,
            0 < size <= DEFAULT_ASPIRATION_MAX_WINDOW,
            is_score(alpha as int),
            is_score(beta as int),
            alpha < beta,
            alpha <= last <= beta,
            searcher.bearings().is_untimed() == old(searcher).bearings().is_untimed(),
            old(searcher).bearings().is_untimed() ==> searcher.hot.stopped == old(
                searcher,
            ).hot.stopped,
            moves@.to_multiset() == old(moves)@.to_multiset(),
            head_among(searcher, old(searcher), old(moves)@),
            forall|b: Point<H>, o: MoveList, score: i32| #[trigger]
                windows_tried(
                    at(*host, *searcher),
                    *moves,
                    depth,
                    last as int,
                    Aspiration { size, alpha, beta, tries },
                    b,
                    o,
                    score,
                ) ==> windows_tried(a, m0, depth, last as int, first, b, o, score),
        decreases 4 - tries,
    {
        let ghost c0 = at(*host, *searcher);
        let ghost listed0 = *moves;
        let ghost w = Aspiration { size, alpha, beta, tries };
        proof {
            lemma_same_members(moves@, old(moves)@);
            reveal(Searcher::bearings);
        }
        let r: i32 = negamax_root(searcher, host, depth, alpha, beta, moves);
        let ghost c = at(*host, *searcher);
        proof {
            lemma_between(&c0.searcher, searcher);
            lemma_back_then(a.host, c0.host, c.host);
        }
        tries += 1;
        proof {
            if searches_some(old(searcher), old(moves)@) {
                let m = choose|m: Move|
                    old(moves)@.contains(m) && !(#[trigger] old(searcher).excludes(m));
                assert(listed0@.contains(m) && !c0.searcher.excludes(m));
            }
        }
        if searcher.hot.stopped || (alpha < r && r < beta) {
            proof {
                lemma_window(
                    c0,
                    listed0,
                    depth,
                    last as int,
                    w,
                    c,
                    *moves,
                    r,
                    c,
                    *moves,
                    r,
                );
                lemma_same_members(moves@, old(moves)@);
            }
            return r;
        }
        if r <= alpha {
            size *= DEFAULT_ASPIRATION_FAIL_MULT;
            alpha = clamp_i32(last - size, -INFINITY, INFINITY);
        } else {
            size *= DEFAULT_ASPIRATION_FAIL_MULT;
            beta = clamp_i32(last + size, -INFINITY, INFINITY);
        }
        let ghost next = Aspiration { size, alpha, beta, tries };
        assert(next == widened(w, last as int, r as int));
        if size > DEFAULT_ASPIRATION_MAX_WINDOW || tries >= 4 {
            let ghost listed = *moves;
            proof {
                lemma_same_members(moves@, old(moves)@);
                reveal(Searcher::bearings);
                if searches_some(old(searcher), old(moves)@) {
                    let m = choose|m: Move|
                        old(moves)@.contains(m) && !(#[trigger] old(searcher).excludes(m));
                    assert(listed@.contains(m) && !c.searcher.excludes(m));
                }
            }
            let full: i32 = negamax_root(searcher, host, depth, -INFINITY, INFINITY, moves);
            proof {
                let b = at(*host, *searcher);
                lemma_between(&c.searcher, searcher);
                lemma_back_then(a.host, c.host, b.host);
                lemma_window(
                    c0,
                    listed0,
                    depth,
                    last as int,
                    w,
                    c,
                    listed,
                    r,
                    b,
                    *moves,
                    full,
                );
                lemma_same_members(moves@, old(moves)@);
            }
            return full;
        }
        proof {
            assert forall|b: Point<H>, o: MoveList, score: i32| #[trigger]
                windows_tried(c, *moves, depth, last as int, next, b, o, score) implies
                windows_tried(a, m0, depth, last as int, first, b, o, score) by {
                lemma_window(
                    c0,
                    listed0,
                    depth,
                    last as int,
                    w,
                    c,
                    *moves,
                    r,
                    b,
                    o,
                    score,
                );
            }
        }
    }
}

/// What the iterations so far have brought.
pub struct Iterated {
    pub best_move: Move,
    pub best_score: i32,
    /// The squares of the best move, once an iteration has brought one.
    pub squares: Option<(i64, i64, i64, i64)>,
}

/// What an iteration brings: the head of the principal variation, and its score
/// unless it was stopped.
pub open spec fn brought(
    before: Iterated,
    after: Iterated,
    head: Option<Move>,
    stopped: bool,
    score: i32,
) -> bool {
    match head {
        Some(m) => after == (Iterated {
            best_move: m,
            best_score: if stopped {
                before.best_score
            } else {
                score
            },
            squares: Some(squares_of(m)),
        }),
        None => after == before,
    }
}

/// Whether a move has other squares than the best one so far.
pub open spec fn changes(before: Iterated, m: Move) -> bool {
    before.squares is Some && before.squares != Some(squares_of(m))
}

/// The searcher after an iteration: once the first one is complete time may stop
/// the search, and the head of the principal variation is the best move.
pub open spec fn iterated(
    s: Searcher,
    depth: usize,
    opens: bool,
    found: Iterated,
    score: i32,
) -> Searcher {
    let t = if opens {
        s.with_time_stops()
    } else {
        s
    };
    match t.pv_table@[0] {
        Some(m) => t.with_best(m, score, depth, changes(found, m)),
        None => t,
    }
}

/// An iteration from `a` to `b` searches the root to a depth and takes over what
/// that brings.
#[verifier::opaque]
pub open spec fn iteration_done<H: SearchHost>(
    a: Point<H>,
    moves: MoveList,
    depth: usize,
    opens: bool,
    found: Iterated,
    b: Point<H>,
    ordered: MoveList,
    after: Iterated,
    score: i32,
) -> bool {
    exists|c: Point<H>| #[trigger]
        c.sound() && depth_searched(a, moves, depth, c, ordered, score) && b == at(
            c.host,
            iterated(c.searcher, depth, opens, found, score),
        ) && brought(found, after, c.searcher.pv_table@[0], c.searcher.hot.stopped, score)
}

/// Searches the root to a depth and takes over what that brings. After the first
/// iteration time may stop the search.
pub fn search_iteration<H: SearchHost>(
    searcher: &mut Searcher,
    host: &mut H,
    depth: usize,
    opens: bool,
    moves: &mut MoveList,
    found: &mut Iterated,
) -> (r: i32)
    requires
        old(searcher).valid(),
        1 <= depth,
        is_score(old(found).best_score as int),
    ensures
        final(searcher).goes_on_between(old(searcher)),
        is_score(r as int),
        is_score(final(found).best_score as int),
        final(moves)@.to_multiset() == old(moves)@.to_multiset(),
        head_among(final(searcher), old(searcher), old(moves)@),
        !final(searcher).hot.stopped && r > -INFINITY && searches_some(old(searcher), old(moves)@)
            ==> heads_with(final(searcher), old(moves)@),
        brought(
            *old(found),
            *final(found),
            final(searcher).pv_table@[0],
            final(searcher).hot.stopped,
            r,
        ),
        old(searcher).bearings().is_untimed() ==> final(searcher).hot.stopped == old(
            searcher,
        ).hot.stopped,
        final(searcher).excluded_moves@ == old(searcher).excluded_moves@,
        iteration_done(
            at(*old(host), *old(searcher)),
            *old(moves),
            depth,
            opens,
            *old(found),
            at(*final(host), *final(searcher)),
            *final(moves),
            *final(found),
            r,
        ),
        taken_back(*old(host), *final(host)),
{
    let ghost before = *found;
    let score: i32 = search_depth(searcher, host, depth, moves);
    let ghost c = at(*host, *searcher);
    if opens {
        searcher.allow_time_stops();
    }
    if let Some(m) = searcher.pv_head() {
        let squares = (m.from.x, m.from.y, m.to.x, m.to.y);
        let changed = match found.squares {
            Some(l) => !(l.0 == squares.0 && l.1 == squares.1 && l.2 == squares.2 && l.3
                == squares.3),
            None => false,
        };
        assert(changed == changes(before, m));
        found.best_move = m;
        found.squares = Some(squares);
        if !searcher.hot.stopped {
            found.best_score = score;
        }
        searcher.note_best(&m, score, depth, changed);
    }
    proof {
        assert(c.sound());
        reveal(iteration_done);
    }
    score
}

/// Where iterative deepening stands: the point, the moves in the order of the last
/// iteration, and what was found.
pub struct Deepening<H> {
    pub at: Point<H>,
    pub moves: MoveList,
    pub found: Iterated,
}

/// An iteration is opened.
pub open spec fn iteration_opened<H: SearchHost>(a: Point<H>, c: Point<H>) -> bool {
    a.host.starts_iteration(&c.host) && c.searcher.iteration_begun(&a.searcher)
}

/// An iteration that was completed is told of, unless the search is silent. Where
/// all threads were told to stop, this one is.
pub open spec fn iteration_told<H: SearchHost>(
    d: Point<H>,
    depth: usize,
    score: i32,
    e: Point<H>,
) -> bool {
    &&& if !d.searcher.hot.stopped && !d.searcher.silent {
        d.host.reports(d.searcher, depth, score, &e.host)
    } else {
        e.host == d.host
    }
    &&& told_to_stop(&e.host, d.searcher, e.searcher)
}

pub open spec fn told_to_stop<H: SearchHost>(host: &H, before: Searcher, after: Searcher) -> bool {
    exists|asked: bool| #[trigger]
        call_ensures(H::is_stop_requested, (host,), asked) && after == (if asked {
            before.with_stop()
        } else {
            before
        })
}

/// The budget is worked out anew: where it is used up the search is stopped, else
/// the iteration is recorded.
pub open spec fn budget_revised<H: SearchHost>(
    before: &H,
    searcher: Searcher,
    depth: usize,
    best_score: i32,
    legal_moves: usize,
    used_up: bool,
    after: &H,
    later: Searcher,
) -> bool {
    let counted = Searcher {
        hot: SearcherHot { best_move_changes: 0, ..searcher.hot },
        ..searcher
    };
    &&& before.revises_budget(searcher, depth, best_score, legal_moves, used_up, after)
    &&& if used_up {
        later == counted.with_stop()
    } else {
        later.iteration_recorded(&counted, best_score)
    }
}

/// Whether the budget, worked out anew, allows another iteration.
pub open spec fn budget_allows<H: SearchHost>(
    before: &H,
    searcher: Searcher,
    depth: usize,
    best_score: i32,
    legal_moves: usize,
    after: &H,
    later: Searcher,
    last: bool,
    more: bool,
) -> bool {
    exists|used_up: bool| #[trigger]
        budget_revised(before, searcher, depth, best_score, legal_moves, used_up, after, later)
            && more == (!used_up && !last)
}

/// After an iteration the search ends where it was stopped, has found a decision,
/// has used up its budget or has reached the last depth.
pub open spec fn iteration_closed<H: SearchHost>(
    e: Point<H>,
    depth: usize,
    best_score: i32,
    legal_moves: usize,
    last: bool,
    b: Point<H>,
    more: bool,
) -> bool {
    if e.searcher.hot.stopped || decisive(best_score as int) {
        b == e && !more
    } else if e.searcher.hot.time_limit_ms != u128::MAX {
        budget_allows(
            &e.host,
            e.searcher,
            depth,
            best_score,
            legal_moves,
            &b.host,
            b.searcher,
            last,
            more,
        )
    } else {
        b == e && more == !last
    }
}

/// One round of iterative deepening, at a base depth. It is not started where the
/// time does not allow it.
#[verifier::opaque]
pub open spec fn deepening_step<H: SearchHost>(
    a: Deepening<H>,
    thread_id: usize,
    base: usize,
    opens: bool,
    max_depth: usize,
    b: Deepening<H>,
    more: bool,
) -> bool {
    let depth = iteration_depth_of(thread_id, base, max_depth);
    exists|c: Point<H>, clock: ClockReading|
        #![trigger iteration_opened(a.at, c), call_ensures(H::read_clock, (&c.host,), clock)]
        iteration_opened(a.at, c) && call_ensures(H::read_clock, (&c.host,), clock)
            && match start_of_iteration(
            c.searcher.hot,
            clock,
            if c.searcher.hot.is_soft_limit {
                90
            } else {
                50
            },
        ) {
            IterationStart::Stop => !more && b == (Deepening {
                at: at(c.host, c.searcher.with_stop()),
                ..a
            }),
            IterationStart::Skip => !more && b == (Deepening { at: c, ..a }),
            IterationStart::Go => exists|d: Point<H>, e: Point<H>, score: i32|
                #![trigger
                    iteration_done(
                        c,
                        a.moves,
                        depth,
                        opens,
                        a.found,
                        d,
                        b.moves,
                        b.found,
                        score,
                    ),
                    iteration_told(d, depth, score, e)
                ]
                iteration_done(
                    c,
                    a.moves,
                    depth,
                    opens,
                    a.found,
                    d,
                    b.moves,
                    b.found,
                    score,
                ) && d.searcher.goes_on_between(&a.at.searcher) && iteration_told(
                    d,
                    depth,
                    score,
                    e,
                ) && iteration_closed(
                    e,
                    depth,
                    b.found.best_score,
                    b.moves@.len() as usize,
                    base == max_depth,
                    b.at,
                    more,
                ),
        }
}

/// Iterative deepening stands at `end` after `n` rounds.
#[verifier::opaque]
pub open spec fn deepening_reached<H: SearchHost>(
    start: Deepening<H>,
    thread_id: usize,
    first: usize,
    max_depth: usize,
    n: nat,
    end: Deepening<H>,
) -> bool
    decreases n,
{
    if n == 0 {
        end == start
    } else {
        exists|c: Deepening<H>| #[trigger]
            c.at.searcher.goes_on_between(&start.at.searcher) && deepening_reached(
                start,
                thread_id,
                first,
                max_depth,
                (n - 1) as nat,
                c,
            ) && deepening_step(
                c,
                thread_id,
                (first + n - 1) as usize,
                n == 1,
                max_depth,
                end,
                true,
            )
    }
}

/// Rounds of iterative deepening from `a` to `b`, from the first depth of the
/// thread on, as long as there are more.
#[verifier::opaque]
pub open spec fn deepened<H: SearchHost>(
    a: Deepening<H>,
    thread_id: usize,
    max_depth: usize,
    b: Deepening<H>,
) -> bool {
    let first = start_depth_of(thread_id, max_depth);
    if first > max_depth {
        b == a
    } else {
        exists|n: nat, c: Deepening<H>|
            #![trigger
                c.at.searcher.goes_on_between(&a.at.searcher),
                deepening_reached(a, thread_id, first, max_depth, n, c)
            ]
            c.at.searcher.goes_on_between(&a.at.searcher) && first + n <= max_depth
                && deepening_reached(a, thread_id, first, max_depth, n, c) && deepening_step(
                c,
                thread_id,
                (first + n) as usize,
                n == 0,
                max_depth,
                b,
                false,
            )
    }
}

/// What iterative deepening starts with.
pub open spec fn not_deepened<H>(a: Point<H>, moves: MoveList) -> Deepening<H> {
    Deepening {
        at: a,
        moves,
        found: Iterated {
            best_move: moves@[0],
            best_score: (-INFINITY) as i32,
            squares: None,
        },
    }
}

/// A single move is returned with the corrected evaluation.
pub open spec fn single_move_judged<H: SearchHost>(a: Point<H>, b: Point<H>, score: i32) -> bool {
    b.searcher == a.searcher && judged_at_root(&a.host, &b.host, a.searcher, score)
}

pub open spec fn judged_at_root<H: SearchHost>(
    before: &H,
    after: &H,
    searcher: Searcher,
    score: i32,
) -> bool {
    exists|raw: i32, game: GameState|
        #![trigger
            raw_eval_of(before, raw, after),
            call_ensures(H::game, (after,), &game)
        ]
        raw_eval_of(before, raw, after) && call_ensures(H::game, (after,), &game) && score
            == searcher.corrected(game, raw as int, 0)
}

/// A search of some moves, deeper and deeper, from `a` to `b`, may give this move
/// and score. A single move is not searched.
pub open spec fn deeply_searched<H: SearchHost>(
    a: Point<H>,
    moves: MoveList,
    max_depth: usize,
    b: Point<H>,
    ordered: MoveList,
    r: (Move, i32),
) -> bool {
    if moves@.len() == 1 {
        ordered == moves && r.0 == moves@[0] && single_move_judged(a, b, r.1)
    } else {
        exists|end: Deepening<H>| #[trigger]
            deepened(not_deepened(a, moves), a.searcher.thread_id, max_depth, end) && end.at == b
                && end.moves == ordered && r == (end.found.best_move, end.found.best_score)
    }
}

/// Tells of an iteration that was completed, unless the search is silent, and stops
/// the search where all threads were told to.
fn tell_iteration<H: SearchHost>(
    searcher: &mut Searcher,
    host: &mut H,
    depth: usize,
    score: i32,
)
    requires
        old(searcher).valid(),
    ensures
        final(searcher).goes_on_between(old(searcher)),
        final(searcher).pv_table == old(searcher).pv_table,
        final(searcher).excluded_moves == old(searcher).excluded_moves,
        iteration_told(
            at(*old(host), *old(searcher)),
            depth,
            score,
            at(*final(host), *final(searcher)),
        ),
        taken_back(*old(host), *final(host)),
{
    let ghost h0 = *host;
    proof {
        lemma_back_same(h0);
    }
    if !searcher.hot.stopped && !searcher.silent {
        host.report(searcher, depth, score);
        proof {
            assert(h0.reports(*searcher, depth, score, &*host));
            lemma_back_steady(h0, *host);
        }
    }
    let ghost h1 = *host;
    let asked = host.is_stop_requested();
    if asked {
        searcher.request_stop();
    }
    assert(told_to_stop(&h1, *old(searcher), *searcher));
}

/// Closes an iteration. Whether the search goes on.
fn close_iteration<H: SearchHost>(
    searcher: &mut Searcher,
    host: &mut H,
    depth: usize,
    best_score: i32,
    legal_moves: usize,
    last: bool,
) -> (more: bool)
    requires
        old(searcher).valid(),
        is_score(best_score as int),
    ensures
        final(searcher).goes_on_between(old(searcher)),
        final(searcher).pv_table == old(searcher).pv_table,
        final(searcher).excluded_moves == old(searcher).excluded_moves,
        more ==> !last,
        iteration_closed(
            at(*old(host), *old(searcher)),
            depth,
            best_score,
            legal_moves,
            last,
            at(*final(host), *final(searcher)),
            more,
        ),
        taken_back(*old(host), *final(host)),
{
    let ghost h0 = *host;
    let ghost s0 = *searcher;
    proof {
        lemma_back_same(h0);
    }
    if searcher.hot.stopped || is_decisive(best_score) {
        return false;
    }
    if searcher.hot.time_limit_ms == u128::MAX {
        return !last;
    }
    let used_up = host.revise_budget(searcher, depth, best_score, legal_moves);
    let ghost h1 = *host;
    proof {
        assert(h0.revises_budget(s0, depth, best_score, legal_moves, used_up, &h1));
        lemma_back_steady(h0, h1);
    }
    searcher.forget_changes();
    if used_up {
        searcher.request_stop();
    } else {
        searcher.settle_iteration(best_score);
    }
    proof {
        assert(budget_revised(
            &h0,
            s0,
            depth,
            best_score,
            legal_moves,
            used_up,
            &h1,
            *searcher,
        ));
        assert(budget_allows(
            &h0,
            s0,
            depth,
            best_score,
            legal_moves,
            &h1,
            *searcher,
            last,
            !used_up && !last,
        ));
    }
    !used_up && !last
}

/// Searches some of the position's moves deeper and deeper, until the depth or
/// the time is used up or a mate is found. A single move is not searched: it is
/// returned with the corrected evaluation. Else, only where no iteration brings
/// one of the moves to the head of the principal variation can the move be the
/// one that was there before; it then has the lowest score.
#[verifier::rlimit(60)]
pub fn search_deeper<H: SearchHost>(
    searcher: &mut Searcher,
    host: &mut H,
    moves: &mut MoveList,
    max_depth: usize,
) -> (r: (Move, i32))
    requires
        old(searcher).valid(),
        looks_ahead(old(searcher).thread_id) ==> max_depth >= 1,
        old(moves)@.len() > 0,
    ensures
        final(searcher).goes_on_between(old(searcher)),
        final(moves)@.to_multiset() == old(moves)@.to_multiset(),
        is_score(r.1 as int),
        old(searcher).excluded_moves@.len() == 0 ==> old(moves)@.contains(r.0) || (Some(r.0) == old(
            searcher,
        ).pv_table@[0] && r.1 == -INFINITY),
        deeply_searched(
            at(*old(host), *old(searcher)),
            *old(moves),
            max_depth,
            at(*final(host), *final(searcher)),
            *final(moves),
            r,
        ),
        taken_back(*old(host), *final(host)),
{
    let ghost a = at(*host, *searcher);
    let ghost m0 = *moves;
    proof {
        lemma_back_same(a.host);
    }
    if moves.len() == 1 {
        let m = moves[0];
        let raw: i32 = raw_eval(host);
        let ghost h1 = *host;
        let game = host.game();
        let ghost g = *game;
        let score: i32 = searcher.corrected_eval(game, raw, 0);
        assert(raw_eval_of(&a.host, raw, &h1) && call_ensures(H::game, (&h1,), &g));
        assert(judged_at_root(&a.host, &h1, a.searcher, score));
        return (m, score);
    }
    let ghost legal = moves@;
    let mut found = Iterated { best_move: moves[0], best_score: -INFINITY, squares: None };
    let thread_id: usize = searcher.thread_id;
    let start: usize = start_depth(thread_id, max_depth);
    let mut base: usize = start;
    let ghost origin = Deepening { at: a, moves: m0, found };
    proof {
        reveal(deepening_reached);
        reveal(deepened);
        reveal(Searcher::bearings);
        assert(origin == not_deepened(a, m0));
    }
    if base > max_depth {
        assert(deepened(origin, thread_id, max_depth, origin));
        return (found.best_move, found.best_score);
    }
    loop
        invariant
            1 <= start <= base <= max_depth,
            start == start_depth_of(thread_id, max_depth),
            thread_id == a.searcher.thread_id,
            a == at(*old(host), *old(searcher)),
            m0 == *old(moves),
            m0@ == legal,
            legal.len() > 1,
            origin == not_deepened(a, m0),
            taken_back(a.host, *host),
            searcher.goes_on_between(old(searcher)),
            searcher.excluded_moves@ == old(searcher).excluded_moves@,
            is_score(found.best_score as int),
            moves@.to_multiset() == legal.to_multiset(),
            head_among(searcher, old(searcher), legal),
            legal.contains(found.best_move) || old(searcher).pv_table@[0] == Some(found.best_move),
            old(searcher).excluded_moves@.len() == 0 ==> legal.contains(found.best_move)
                || found.best_score == -INFINITY,
            old(searcher).excluded_moves@.len() == 0 && found.best_score > -INFINITY 
                ==> heads_with(searcher, legal),
            deepening_reached(
                origin,
                thread_id,
                start,
                max_depth,
                (base - start) as nat,
                Deepening { at: at(*host, *searcher), moves: *moves, found },
            ),
        decreases max_depth - base,
    {
        let ghost c0 = Deepening { at: at(*host, *searcher), moves: *moves, found };
        let depth: usize = iteration_depth(thread_id, base, max_depth);
        searcher.begin_iteration();
        proof {
            reveal(Searcher::bearings);
            lemma_same_members(moves@, legal);
        }
        host.start_iteration();
        let ghost c = at(*host, *searcher);
        let clock = host.read_clock();
        let percent: u64 = if searcher.hot.is_soft_limit {
            90
        } else {
            50
        };
        proof {
            assert(c0.at.host.starts_iteration(&c.host));
            lemma_back_steady(c0.at.host, c.host);
            lemma_back_then(a.host, c0.at.host, c.host);
            assert(iteration_opened(c0.at, c));
            assert(c0.at.searcher.goes_on_between(&a.searcher));
            reveal(deepening_step);
            reveal(deepening_reached);
        }
        match judge_start(&searcher.hot, &clock, percent) {
            IterationStart::Go => {},
            IterationStart::Stop => {
                searcher.request_stop();
                proof {
                    let b = Deepening { at: at(*host, *searcher), moves: *moves, found };
                    assert(deepening_step(c0, thread_id, base, base == start, max_depth, b, false));
                    lemma_deepened(origin, thread_id, max_depth, (base - start) as nat, c0, b);
                }
                return (found.best_move, found.best_score);
            },
            IterationStart::Skip => {
                proof {
                    let b = Deepening { at: at(*host, *searcher), moves: *moves, found };
                    assert(deepening_step(c0, thread_id, base, base == start, max_depth, b, false));
                    lemma_deepened(origin, thread_id, max_depth, (base - start) as nat, c0, b);
                }
                return (found.best_move, found.best_score);
            },
        }
        let ghost f0 = found;
        let score: i32 = search_iteration(
            searcher,
            host,
            depth,
            base == start,
            moves,
            &mut found,
        );
        let ghost d = at(*host, *searcher);
        proof {
            lemma_back_then(a.host, c.host, d.host);
            lemma_same_members(moves@, legal);
            if old(searcher).excluded_moves@.len() == 0 {
                assert(!c.searcher.excludes(legal[0]));
                assert(c0.moves@.contains(legal[0]));
                assert(searches_some(&c.searcher, c0.moves@));
            }
        }
        tell_iteration(searcher, host, depth, score);
        let ghost e = at(*host, *searcher);
        let more = close_iteration(
            searcher,
            host,
            depth,
            found.best_score,
            moves.len(),
            base == max_depth,
        );
        let ghost b = Deepening { at: at(*host, *searcher), moves: *moves, found };
        proof {
            lemma_back_then(a.host, d.host, e.host);
            lemma_back_then(a.host, e.host, b.at.host);
            assert(iteration_done(
                c,
                c0.moves,
                depth,
                base == start,
                f0,
                d,
                b.moves,
                b.found,
                score,
            ));
            lemma_round(
                c0,
                thread_id,
                base,
                base == start,
                max_depth,
                c,
                clock,
                d,
                score,
                e,
                b,
                more,
            );
        }
        if !more {
            proof {
                lemma_deepened(origin, thread_id, max_depth, (base - start) as nat, c0, b);
            }
            return (found.best_move, found.best_score);
        }
        base += 1;
    }
}

proof fn lemma_round<H: SearchHost>(
    a: Deepening<H>,
    thread_id: usize,
    base: usize,
    opens: bool,
    max_depth: usize,
    c: Point<H>,
    clock: ClockReading,
    d: Point<H>,
    score: i32,
    e: Point<H>,
    b: Deepening<H>,
    more: bool,
)
    requires
        iteration_opened(a.at, c),
        call_ensures(H::read_clock, (&c.host,), clock),
        start_of_iteration(
            c.searcher.hot,
            clock,
            if c.searcher.hot.is_soft_limit {
                90
            } else {
                50
            },
        ) is Go,
        iteration_done(
            c,
            a.moves,
            iteration_depth_of(thread_id, base, max_depth),
            opens,
            a.found,
            d,
            b.moves,
            b.found,
            score,
        ),
        d.searcher.goes_on_between(&a.at.searcher),
        iteration_told(d, iteration_depth_of(thread_id, base, max_depth), score, e),
        iteration_closed(
            e,
            iteration_depth_of(thread_id, base, max_depth),
            b.found.best_score,
            b.moves@.len() as usize,
            base == max_depth,
            b.at,
            more,
        ),
    ensures
        deepening_step(a, thread_id, base, opens, max_depth, b, more),
{
    reveal(deepening_step);
}

proof fn lemma_deepened<H: SearchHost>(
    a: Deepening<H>,
    thread_id: usize,
    max_depth: usize,
    n: nat,
    c: Deepening<H>,
    b: Deepening<H>,
)
    requires
        c.at.searcher.goes_on_between(&a.at.searcher),
        start_depth_of(thread_id, max_depth) + n <= max_depth,
        deepening_reached(
            a,
            thread_id,
            start_depth_of(thread_id, max_depth),
            max_depth,
            n,
            c,
        ),
        deepening_step(
            c,
            thread_id,
            (start_depth_of(thread_id, max_depth) + n) as usize,
            n == 0,
            max_depth,
            b,
            false,
        ),
    ensures
        deepened(a, thread_id, max_depth, b),
{
    reveal(deepened);
}

/// Without a time limit, iterative deepening ends with an iteration to the full
/// depth, unless it was told to stop or has found a decision.
pub proof fn untimed_searches_reach_the_full_depth<H: SearchHost>(
    a: Deepening<H>,
    thread_id: usize,
    max_depth: usize,
    b: Deepening<H>,
)
    requires
        deepened(a, thread_id, max_depth, b),
        a.at.searcher.hot.time_limit_ms == u128::MAX,
        1 <= max_depth,
    ensures
        b.at.searcher.hot.stopped || decisive(b.found.best_score as int) || exists|
            c: Deepening<H>,
            d: Point<H>,
            e: Point<H>,
            opens: bool,
            score: i32,
        | #[trigger]
            iteration_done(
                d,
                c.moves,
                max_depth,
                opens,
                c.found,
                e,
                b.moves,
                b.found,
                score,
            ) && iteration_opened(c.at, d) && b.at.searcher.goes_on_between(&a.at.searcher),
{
    reveal(deepened);
    reveal(deepening_step);
    reveal(Searcher::bearings);
    let first = start_depth_of(thread_id, max_depth);
    assert(first <= max_depth);
    let (n, c) = choose|n: nat, c: Deepening<H>|
        #![trigger
            c.at.searcher.goes_on_between(&a.at.searcher),
            deepening_reached(a, thread_id, first, max_depth, n, c)
        ]
        c.at.searcher.goes_on_between(&a.at.searcher) && first + n <= max_depth
            && deepening_reached(a, thread_id, first, max_depth, n, c) && deepening_step(
            c,
            thread_id,
            (first + n) as usize,
            n == 0,
            max_depth,
            b,
            false,
        );
    let base = (first + n) as usize;
    let depth = iteration_depth_of(thread_id, base, max_depth);
    assert(deepening_step(c, thread_id, base, n == 0, max_depth, b, false));
}

/// The answer of a search from `a` to `b`: that of searching the legal moves of the
/// game deeper and deeper, or none where there are none.
#[verifier::opaque]
pub open spec fn answered<H: SearchHost>(
    a: Point<H>,
    max_depth: usize,
    b: Point<H>,
    r: Option<(Move, i32)>,
) -> bool {
    exists|c: H, legal: MoveList| #[trigger]
        legal_listed(a.host, legal@, c) && match r {
            Some(found) => legal@.len() > 0 && exists|ordered: MoveList| #[trigger]
                deeply_searched(at(c, a.searcher), legal, max_depth, b, ordered, found),
            None => legal@.len() == 0 && b == at(c, a.searcher),
        }
}

/// What holds of an answer: a move comes with a score, and is one of the legal moves
/// of the game unless it has the lowest score; then it may be the head of an older
/// principal variation. There is none exactly where there is no legal move.
pub open spec fn sound_answer<H: SearchHost>(
    host: H,
    old_head: Option<Move>,
    answer: Option<(Move, i32)>,
) -> bool {
    exists|legal: Seq<Move>, later: H| #[trigger]
        legal_listed(host, legal, later) && match answer {
            Some((m, score)) => {
                &&& legal.len() > 0
                &&& legal.contains(m) || (old_head == Some(m) && score == -INFINITY)
                &&& legal.len() == 1 ==> m == legal[0]
                &&& is_score(score as int)
            },
            None => legal.len() == 0,
        }
}

/// Searches the legal moves of the position. There is no result where there are
/// none.
pub fn search_with_searcher<H: SearchHost>(
    searcher: &mut Searcher,
    host: &mut H,
    max_depth: usize,
) -> (r: Option<(Move, i32)>)
    requires
        old(searcher).valid(),
        looks_ahead(old(searcher).thread_id) ==> max_depth >= 1,
    ensures
        final(searcher).goes_on_between(old(searcher)),
        answered(
            at(*old(host), *old(searcher)),
            max_depth,
            at(*final(host), *final(searcher)),
            r,
        ),
        old(searcher).excluded_moves@.len() == 0 ==> sound_answer(
            *old(host),
            old(searcher).pv_table@[0],
            r,
        ),
        taken_back(*old(host), *final(host)),
        game_kept(*old(host), *final(host)),
{
    broadcast use taking_back_keeps_the_game;

    let ghost a = at(*host, *searcher);
    let mut moves = legal_root_moves(host);
    let ghost c = *host;
    let ghost legal = moves;
    if moves.len() == 0 {
        proof {
            lemma_answered(a, c, legal, legal, max_depth, at(c, a.searcher), None);
        }
        return None;
    }
    let found = search_deeper(searcher, host, &mut moves, max_depth);
    proof {
        lemma_back_then(a.host, c, *host);
        assert(deeply_searched(
            at(c, a.searcher),
            legal,
            max_depth,
            at(*host, *searcher),
            moves,
            found,
        ));
        if legal@.len() == 1 {
            assert(legal@.contains(legal@[0]));
        }
        lemma_answered(a, c, legal, moves, max_depth, at(*host, *searcher), Some(found));
    }
    Some(found)
}

proof fn lemma_answered<H: SearchHost>(
    a: Point<H>,
    c: H,
    legal: MoveList,
    ordered: MoveList,
    max_depth: usize,
    b: Point<H>,
    r: Option<(Move, i32)>,
)
    requires
        legal_listed(a.host, legal@, c),
        match r {
            Some(found) => legal@.len() > 0 && deeply_searched(
                at(c, a.searcher),
                legal,
                max_depth,
                b,
                ordered,
                found,
            ),
            None => legal@.len() == 0 && b == at(c, a.searcher),
        },
    ensures
        answered(a, max_depth, b, r),
{
    reveal(answered);
}

} // verus!
