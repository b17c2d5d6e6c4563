//! The best lines of a position.
use crate::arith::{max, min, min_i32};
use crate::moves::{Move, MoveList};
use crate::search::decisions::is_score;
use crate::search::deepening::{
    among, build_search_stats, iteration_depth, iteration_depth_of, iteration_opened, judge_start,
    judged_at_root, kept, legal_listed, legal_root_moves, looks_ahead, single_move_judged,
    start_depth, start_depth_of, start_of_iteration, stats_told, IterationStart,
};
use crate::search::host::{raw_eval, raw_eval_of, SearchHost};
use crate::search::node::negamax;
use crate::search::params::DEFAULT_ASPIRATION_WINDOW;
use crate::search::results::searched;
use crate::search::root::{first_window, root_child, root_child_ctx, root_made, root_unmade};
use crate::search::searcher::{ClockReading, Searcher, SearcherHot};
use crate::search::steps::{
    at, game_kept, lemma_back_move, lemma_back_same, lemma_back_steady, lemma_back_then,
    taken_back, taking_back_keeps_the_game, Point,
};
use crate::search::{decisive, is_decisive, MultiPVResult, NodeType, PVLine, INFINITY, MAX_PLY};
use vstd::prelude::*;

verus! {

/// The moves that are there.
pub open spec fn present(line: Seq<Option<Move>>) -> Seq<Move>
    decreases line.len(),
{
    if line.len() == 0 {
        Seq::empty()
    } else {
        match line.last() {
            Some(m) => present(line.drop_last()).push(m),
            None => present(line.drop_last()),
        }
    }
}

impl Searcher {
    /// A root move with the principal variation after it.
    pub fn line_after(&self, m: &Move) -> (r: Vec<Move>)
        requires
            self.valid(),
        ensures
            r@ == seq![*m] + present(self.pv_line(1)),
    {
        proof {
            self.lemma_valid();
        }
        let mut line: Vec<Move> = Vec::new();
        line.push(*m);
        let len: usize = self.pv_length[1];
        let mut i: usize = 0;
        assert(self.pv_line(1).take(0) =~= Seq::empty());
        assert(line@ =~= seq![*m] + present(self.pv_line(1).take(0)));
        while i < len
            invariant
                self.wf(),
                i <= len,
                len == self.pv_length@[1],
                line@ == seq![*m] + present(self.pv_line(1).take(i as int)),
            decreases len - i,
        {
            let ghost whole = self.pv_line(1);
            assert(whole.take(i + 1).drop_last() =~= whole.take(i as int));
            assert(whole[i as int] == self.pv_table@[MAX_PLY + i]);
            if let Some(next) = self.pv_table[MAX_PLY + i] {
                line.push(next);
                assert(line@ =~= seq![*m] + present(whole.take(i + 1)));
            }
            i += 1;
        }
        assert(self.pv_line(1).take(len as int) =~= self.pv_line(1));
        line
    }
}

/// The lines are the better, the earlier.
pub open spec fn best_first(lines: Seq<PVLine>) -> bool {
    forall|i: int, j: int| 0 <= i < j < lines.len() ==> lines[i].score >= lines[j].score
}

/// The first moves of lines.
pub open spec fn heads(lines: Seq<PVLine>) -> Seq<Move> {
    lines.map_values(|l: PVLine| l.mv)
}

/// Lines of a position with the moves `all`: each starts with a move of its
/// own, and the better ones come first.
pub open spec fn lines_ok(lines: Seq<PVLine>, all: Seq<Move>) -> bool {
    &&& best_first(lines)
    &&& among(heads(lines), all)
    &&& all.no_duplicates() ==> heads(lines).no_duplicates()
    &&& forall|i: int|
        0 <= i < lines.len() ==> is_score((#[trigger] lines[i]).score as int) && (
        lines[i].pv@.len() > 0 ==> lines[i].pv@[0] == lines[i].mv)
}

/// A line was inserted behind those that are at least as good.
pub open spec fn line_inserted(before: Seq<PVLine>, line: PVLine, after: Seq<PVLine>) -> bool {
    exists|k: int|
        0 <= k <= before.len() && #[trigger] before.insert(k, line) == after && (forall|i: int|
            0 <= i < k ==> (#[trigger] before[i]).score >= line.score) && (k < before.len()
            ==> before[k].score < line.score)
}

/// Inserts a line behind those that are at least as good.
fn insert_line(lines: &mut Vec<PVLine>, line: PVLine)
    requires
        best_first(old(lines)@),
    ensures
        best_first(final(lines)@),
        line_inserted(old(lines)@, line, final(lines)@),
        heads(final(lines)@).to_multiset() == heads(old(lines)@).to_multiset().insert(line.mv),
{
    let mut k: usize = 0;
    while k < lines.len() && lines[k].score >= line.score
        invariant
            k <= lines@.len(),
            forall|i: int| 0 <= i < k ==> (#[trigger] lines@[i]).score >= line.score,
        decreases lines@.len() - k,
    {
        k += 1;
    }
    let ghost before = lines@;
    let ghost added = line;
    lines.insert(k, line);
    proof {
        assert(before.insert(k as int, added) == lines@);
        let a = heads(before);
        let b = heads(lines@);
        assert(b =~= a.insert(k as int, added.mv));
        assert(b.remove(k as int) =~= a);
        broadcast use vstd::seq_lib::group_to_multiset_ensures;

        assert(b[k as int] == added.mv);
        assert(b.contains(added.mv));
        assert(b.to_multiset().count(added.mv) > 0);
        assert(b.to_multiset() =~= a.to_multiset().insert(added.mv));
    }
}

/// Whether the time does not allow another root move.
pub open spec fn no_time_for_move(hot: SearcherHot, clock: ClockReading) -> bool {
    ||| hot.maximum_time_ms > 0 && clock.elapsed_ms > hot.maximum_time_ms
    ||| clock.budget_us matches Some(b) && clock.elapsed_ms * 1000 > b
}

pub fn is_time_for_move_over(hot: &SearcherHot, clock: &ClockReading) -> (r: bool)
    ensures
        r == no_time_for_move(*hot, *clock),
{
    (hot.maximum_time_ms > 0 && clock.elapsed_ms as u128 > hot.maximum_time_ms)
        || match clock.budget_us {
        Some(b) => clock.elapsed_ms as u128 * 1000 > b as u128,
        None => false,
    }
}

/// Whether a score from the first window shows too little.
pub open spec fn is_inexact(first: bool, alpha: int, beta: int, score: int) -> bool {
    if first {
        score <= alpha || score >= beta
    } else {
        score > alpha
    }
}

/// A root move may be scored exactly like this, from `a` to `b`: the first one with
/// a window around the last score, a later one with a null window above what it has
/// to beat; with the full window, where that shows too little.
#[verifier::opaque]
pub open spec fn line_scored<H: SearchHost>(
    a: Point<H>,
    m: Move,
    depth: usize,
    first: bool,
    alpha: i32,
    beta: i32,
    b: Point<H>,
    score: i32,
) -> bool {
    exists|undo: H::Undo, c: Point<H>, d: Point<H>, e: Point<H>, v: i32|
        #![trigger
            root_made(a, m, undo, c),
            searched(c, first_window(depth, first, alpha, beta), d, v),
            root_unmade(a, m, undo, e, b)
        ]
        root_made(a, m, undo, c) && searched(c, first_window(depth, first, alpha, beta), d, v)
            && root_unmade(a, m, undo, e, b) && if is_inexact(
            first,
            alpha as int,
            beta as int,
            -v,
        ) && !d.searcher.hot.stopped {
            exists|w: i32| #[trigger]
                searched(d, root_child(depth, (-INFINITY) as i32, INFINITY, NodeType::PV), e, w)
                    && score == -w
        } else {
            e == d && score == -v
        }
}

/// Searches a root move exactly.
pub fn search_line<H: SearchHost>(
    searcher: &mut Searcher,
    host: &mut H,
    m: &Move,
    depth: usize,
    first: bool,
    alpha: i32,
    beta: i32,
) -> (r: i32)
    requires
        old(searcher).valid(),
        1 <= depth,
        is_score(alpha as int),
        is_score(beta as int),
        alpha < beta,
    ensures
        final(searcher).goes_on(old(searcher)),
        is_score(r as int),
        line_scored(
            at(*old(host), *old(searcher)),
            *m,
            depth,
            first,
            alpha,
            beta,
            at(*final(host), *final(searcher)),
            r,
        ),
        taken_back(*old(host), *final(host)),
{
    let ghost a = at(*host, *searcher);
    let undo = host.make_move(m);
    let ghost u = undo;
    let squares = searcher.note_root_move(m);
    let ghost c = at(*host, *searcher);
    let ctx = if first {
        root_child_ctx(depth, alpha, beta, NodeType::PV)
    } else {
        root_child_ctx(depth, alpha, alpha + 1, NodeType::Cut)
    };
    let v: i32 = negamax(searcher, host, &ctx);
    let ghost d = at(*host, *searcher);
    proof {
        assert(root_made(a, *m, u, c));
        assert(searched(c, first_window(depth, first, alpha, beta), d, v));
    }
    let mut score: i32 = -v;
    let again = if first {
        score <= alpha || score >= beta
    } else {
        score > alpha
    };
    if again && !searcher.hot.stopped {
        let w: i32 = negamax(
            searcher,
            host,
            &root_child_ctx(depth, -INFINITY, INFINITY, NodeType::PV),
        );
        proof {
            lemma_back_then(c.host, d.host, *host);
            assert(searched(
                d,
                root_child(depth, (-INFINITY) as i32, INFINITY, NodeType::PV),
                at(*host, *searcher),
                w,
            ));
        }
        score = -w;
    }
    let ghost e = at(*host, *searcher);
    searcher.forget_root_move(squares, Ghost(a.searcher), Ghost(*m), Ghost(c.searcher));
    host.undo_move(m, undo);
    proof {
        let b = at(*host, *searcher);
        lemma_back_move(a.host, c.host, e.host, b.host, *m, u);
        assert(root_unmade(a, *m, u, e, b));
        reveal(line_scored);
    }
    score
}

/// The window that the first move is searched with: from the fifth depth on, around
/// the last score.
pub open spec fn line_window(depth: usize, last: Option<i32>) -> (int, int) {
    match last {
        Some(v) => if depth >= 5 {
            (
                max(v - DEFAULT_ASPIRATION_WINDOW, -INFINITY),
                min(v + DEFAULT_ASPIRATION_WINDOW, INFINITY as int),
            )
        } else {
            (-INFINITY, INFINITY as int)
        },
        None => (-INFINITY, INFINITY as int),
    }
}

/// Where a search for lines stands: the point, the lines so far, and the score that
/// the next move has to beat.
pub struct LinesPoint<H> {
    pub at: Point<H>,
    pub lines: Seq<PVLine>,
    pub to_beat: i32,
}

/// What the lines are searched with: a depth, the number of lines wanted and the
/// last score.
pub struct LineTerms {
    pub depth: usize,
    pub wanted: usize,
    pub last: Option<i32>,
}

/// The window of a move: the first one as [`line_window`] says, the others above
/// what they have to beat.
pub open spec fn window_of(terms: LineTerms, first: bool, to_beat: i32) -> (i32, i32) {
    if first {
        let w = line_window(terms.depth, terms.last);
        (w.0 as i32, w.1 as i32)
    } else {
        (min(to_beat as int, INFINITY - 1) as i32, INFINITY)
    }
}

/// A line was found: a move with its score and the principal variation after it.
/// It goes behind those that are as good, and the last wanted one is to be beaten.
pub open spec fn line_taken<H>(
    c: LinesPoint<H>,
    m: Move,
    score: i32,
    terms: LineTerms,
    e: Point<H>,
    d: LinesPoint<H>,
) -> bool {
    &&& d.at == e
    &&& exists|line: PVLine| #[trigger]
        line_inserted(c.lines, line, d.lines) && line.mv == m && line.score == score && line.depth
            == terms.depth && line.pv@ == seq![m] + present(e.searcher.pv_line(1))
    &&& d.to_beat == (if d.lines.len() >= terms.wanted {
        d.lines[terms.wanted - 1].score
    } else {
        c.to_beat
    })
}

/// One move is searched for its line, unless the search was stopped or the time
/// does not allow it.
#[verifier::opaque]
pub open spec fn line_step<H: SearchHost>(
    c: LinesPoint<H>,
    m: Move,
    first: bool,
    terms: LineTerms,
    d: LinesPoint<H>,
    more: bool,
) -> bool {
    if c.at.searcher.hot.stopped {
        d == c && !more
    } else {
        exists|clock: ClockReading| #[trigger]
            call_ensures(H::read_clock, (&c.at.host,), clock) && if no_time_for_move(
                c.at.searcher.hot,
                clock,
            ) {
                !more && d == (LinesPoint {
                    at: at(c.at.host, c.at.searcher.with_stop()),
                    ..c
                })
            } else {
                let w = window_of(terms, first, c.to_beat);
                exists|e: Point<H>, score: i32| #[trigger]
                    line_scored(c.at, m, terms.depth, first, w.0, w.1, e, score) && more
                        == !e.searcher.hot.stopped && if more {
                        line_taken(c, m, score, terms, e, d)
                    } else {
                        d == (LinesPoint { at: e, ..c })
                    }
            }
    }
}

/// The lines of the first `n` moves were searched.
#[verifier::opaque]
pub open spec fn lines_reached<H: SearchHost>(
    start: LinesPoint<H>,
    moves: Seq<Move>,
    terms: LineTerms,
    n: nat,
    end: LinesPoint<H>,
) -> bool
    decreases n,
{
    if n == 0 {
        end == start
    } else {
        exists|c: LinesPoint<H>| #[trigger]
            c.at.sound() && lines_reached(start, moves, terms, (n - 1) as nat, c) && line_step(
                c,
                moves[n - 1],
                n == 1,
                terms,
                end,
                true,
            )
    }
}

/// No lines yet.
pub open spec fn no_lines<H>(a: Point<H>) -> LinesPoint<H> {
    LinesPoint { at: a, lines: Seq::empty(), to_beat: (-INFINITY) as i32 }
}

/// A search for the lines of a list of moves, from `a` to `b`. Where the time runs
/// out, only some of the moves have one.
#[verifier::opaque]
pub open spec fn lines_searched<H: SearchHost>(
    a: Point<H>,
    moves: Seq<Move>,
    terms: LineTerms,
    b: Point<H>,
    lines: Seq<PVLine>,
) -> bool {
    exists|n: nat, c: LinesPoint<H>, d: LinesPoint<H>|
        #![trigger lines_reached(no_lines(a), moves, terms, n, c), d.at.sound()]
        lines_reached(no_lines(a), moves, terms, n, c) && d.at.sound() && n <= moves.len() && (
        if n == moves.len() {
            d == c
        } else {
            line_step(c, moves[n as int], n == 0, terms, d, false)
        }) && b == d.at && lines == d.lines
}

/// The game's clock shows no budget.
pub open spec fn no_budget<H: SearchHost>() -> bool {
    forall|h: H, clock: ClockReading| #[trigger]
        call_ensures(H::read_clock, (&h,), clock) ==> clock.budget_us is None
}

/// Time does not stop a search for lines: it has no limit, and there is no budget.
pub open spec fn lines_untimed<H: SearchHost>(searcher: &Searcher) -> bool {
    searcher.hot.time_limit_ms == u128::MAX && searcher.hot.maximum_time_ms == 0 && no_budget::<H>()
}

/// The lines found at a depth, best first. Where the time runs out, only some
/// of the moves have one.
#[verifier::rlimit(40)]
pub fn search_lines<H: SearchHost>(
    searcher: &mut Searcher,
    host: &mut H,
    depth: usize,
    moves: &MoveList,
    multi_pv: usize,
    last: Option<i32>,
) -> (r: Vec<PVLine>)
    requires
        old(searcher).valid(),
        1 <= depth,
        1 <= multi_pv,
        last matches Some(v) ==> is_score(v as int),
    ensures
        final(searcher).goes_on_between(old(searcher)),
        best_first(r@),
        exists|n: int|
            0 <= n <= moves@.len() && heads(r@).to_multiset() == #[trigger] moves@.take(
                n,
            ).to_multiset() && (n == moves@.len() || final(searcher).hot.stopped),
        lines_untimed::<H>(old(searcher)) && !old(searcher).hot.stopped ==> !final(
            searcher).hot.stopped,
        forall|i: int|
            0 <= i < r@.len() ==> is_score((#[trigger] r@[i]).score as int) && r@[i].pv@.len() > 0
                && r@[i].pv@[0] == r@[i].mv,
        lines_searched(
            at(*old(host), *old(searcher)),
            moves@,
            LineTerms { depth, wanted: multi_pv, last },
            at(*final(host), *final(searcher)),
            r@,
        ),
        taken_back(*old(host), *final(host)),
{
    let ghost a = at(*host, *searcher);
    let ghost terms = LineTerms { depth, wanted: multi_pv, last };
    let mut alpha: i32 = -INFINITY;
    let mut beta: i32 = INFINITY;
    if depth >= 5 {
        if let Some(score) = last {
            if score - DEFAULT_ASPIRATION_WINDOW > alpha {
                alpha = score - DEFAULT_ASPIRATION_WINDOW;
            }
            if score + DEFAULT_ASPIRATION_WINDOW < beta {
                beta = score + DEFAULT_ASPIRATION_WINDOW;
            }
        }
    }
    let mut lines: Vec<PVLine> = Vec::new();
    let mut to_beat: i32 = -INFINITY;
    let mut i: usize = 0;
    proof {
        assert(heads(lines@) =~= moves@.take(0));
        assert(lines@ =~= Seq::<PVLine>::empty());
        reveal(lines_reached);
        lemma_back_same(a.host);
        reveal(Searcher::bearings);
    }
    while i < moves.len()
        invariant
            i <= moves@.len(),
            1 <= depth,
            1 <= multi_pv,
            a == at(*old(host), *old(searcher)),
            terms == (LineTerms { depth, wanted: multi_pv, last }),
            taken_back(a.host, *host),
            is_score(alpha as int),
            is_score(beta as int),
            alpha < beta,
            (alpha as int, beta as int) == line_window(depth, last),
            is_score(to_beat as int),
            searcher.goes_on_between(old(searcher)),
            lines_untimed::<H>(old(searcher)) && !old(searcher).hot.stopped
                ==> !searcher.hot.stopped,
            lines_reached(
                no_lines(a),
                moves@,
                terms,
                i as nat,
                LinesPoint { at: at(*host, *searcher), lines: lines@, to_beat },
            ),
            best_first(lines@),
            heads(lines@).to_multiset() == moves@.take(i as int).to_multiset(),
            forall|k: int|
                0 <= k < lines@.len() ==> is_score((#[trigger] lines@[k]).score as int)
                    && lines@[k].pv@.len() > 0 && lines@[k].pv@[0] == lines@[k].mv,
        decreases moves@.len() - i,
    {
        let m = moves[i];
        let ghost c = LinesPoint { at: at(*host, *searcher), lines: lines@, to_beat };
        proof {
            reveal(line_step);
            reveal(Searcher::bearings);
            assert(c.at.sound());
        }
        if searcher.hot.stopped {
            proof {
                assert(line_step(c, moves@[i as int], i == 0, terms, c, false));
                lemma_lines_end(a, moves@, terms, i as nat, c, c);
            }
            return lines;
        }
        let clock = host.read_clock();
        assert(call_ensures(H::read_clock, (&c.at.host,), clock));
        if is_time_for_move_over(&searcher.hot, &clock) {
            searcher.request_stop();
            proof {
                let d = LinesPoint { at: at(*host, *searcher), ..c };
                assert(line_step(c, moves@[i as int], i == 0, terms, d, false));
                lemma_lines_end(a, moves@, terms, i as nat, c, d);
            }
            return lines;
        }
        let ghost s0 = *searcher;
        let (low, high) = if i == 0 {
            (alpha, beta)
        } else {
            (min_i32(to_beat, INFINITY - 1), INFINITY)
        };
        assert((low, high) == window_of(terms, i == 0, c.to_beat));
        let score: i32 = search_line(searcher, host, &m, depth, i == 0, low, high);
        let ghost e = at(*host, *searcher);
        proof {
            lemma_back_then(a.host, c.at.host, e.host);
        }
        if searcher.hot.stopped {
            proof {
                let d = LinesPoint { at: e, ..c };
                lemma_line_step(c, m, i == 0, terms, clock, e, score, d, false);
                lemma_lines_end(a, moves@, terms, i as nat, c, d);
            }
            return lines;
        }
        let pv = searcher.line_after(&m);
        assert(pv@[0] == m);
        let line = PVLine { mv: m, score, depth, pv };
        let ghost added = line;
        insert_line(&mut lines, line);
        proof {
            broadcast use vstd::seq_lib::group_to_multiset_ensures;

            assert(moves@.take(i + 1) =~= moves@.take(i as int).push(m));
        }
        if lines.len() >= multi_pv {
            to_beat = lines[multi_pv - 1].score;
        }
        proof {
            let d = LinesPoint { at: e, lines: lines@, to_beat };
            assert(line_inserted(c.lines, added, d.lines));
            assert(line_taken(c, m, score, terms, e, d));
            lemma_line_step(c, m, i == 0, terms, clock, e, score, d, true);
            reveal(lines_reached);
            assert(lines_reached(no_lines(a), moves@, terms, (i + 1) as nat, d));
        }
        i += 1;
    }
    proof {
        let c = LinesPoint { at: at(*host, *searcher), lines: lines@, to_beat };
        lemma_lines_end(a, moves@, terms, i as nat, c, c);
        assert(moves@.take(i as int).to_multiset() == heads(lines@).to_multiset());
    }
    lines
}

proof fn lemma_line_step<H: SearchHost>(
    c: LinesPoint<H>,
    m: Move,
    first: bool,
    terms: LineTerms,
    clock: ClockReading,
    e: Point<H>,
    score: i32,
    d: LinesPoint<H>,
    more: bool,
)
    requires
        !c.at.searcher.hot.stopped,
        call_ensures(H::read_clock, (&c.at.host,), clock),
        !no_time_for_move(c.at.searcher.hot, clock),
        line_scored(
            c.at,
            m,
            terms.depth,
            first,
            window_of(terms, first, c.to_beat).0,
            window_of(terms, first, c.to_beat).1,
            e,
            score,
        ),
        more == !e.searcher.hot.stopped,
        more ==> line_taken(c, m, score, terms, e, d),
        !more ==> d == (LinesPoint { at: e, ..c }),
    ensures
        line_step(c, m, first, terms, d, more),
{
    reveal(line_step);
}

proof fn lemma_lines_end<H: SearchHost>(
    a: Point<H>,
    moves: Seq<Move>,
    terms: LineTerms,
    n: nat,
    c: LinesPoint<H>,
    d: LinesPoint<H>,
)
    requires
        lines_reached(no_lines(a), moves, terms, n, c),
        d.at.sound(),
        n <= moves.len(),
        if n == moves.len() {
            d == c
        } else {
            line_step(c, moves[n as int], n == 0, terms, d, false)
        },
    ensures
        lines_searched(a, moves, terms, d.at, d.lines),
{
    reveal(lines_searched);
}

/// Moves that are the first `n` of others in some order are among them, and as
/// distinct.
proof fn lemma_part(part: Seq<Move>, whole: Seq<Move>, n: int)
    requires
        0 <= n <= whole.len(),
        part.to_multiset() == whole.take(n).to_multiset(),
    ensures
        part.len() == n,
        among(part, whole),
        whole.no_duplicates() ==> part.no_duplicates(),
{
    let t = whole.take(n);
    part.to_multiset_ensures();
    t.to_multiset_ensures();
    assert forall|i: int| 0 <= i < part.len() implies whole.contains(#[trigger] part[i]) by {
        let m = part[i];
        vstd::seq_lib::to_multiset_contains(part, m);
        vstd::seq_lib::to_multiset_contains(t, m);
        let j = choose|j: int| 0 <= j < t.len() && #[trigger] t[j] == m;
        assert(whole[j] == m);
    }
    if whole.no_duplicates() {
        assert(t.no_duplicates());
        t.lemma_multiset_has_no_duplicates();
        part.lemma_multiset_has_no_duplicates_conv();
    }
}

proof fn lemma_among(a: Seq<Move>, b: Seq<Move>, c: Seq<Move>)
    requires
        among(a, b),
        among(b, c),
    ensures
        among(a, c),
{
    assert forall|i: int| 0 <= i < a.len() implies c.contains(#[trigger] a[i]) by {
        let j = choose|j: int| 0 <= j < b.len() && #[trigger] b[j] == a[i];
        assert(c.contains(b[j]));
    }
}

/// The first moves of lines, as the order of the next iteration.
fn take_heads(lines: &Vec<PVLine>) -> (r: MoveList)
    ensures
        r@ == heads(lines@),
{
    let mut moves: MoveList = Vec::new();
    let mut i: usize = 0;
    while i < lines.len()
        invariant
            i <= lines@.len(),
            moves@ == heads(lines@).take(i as int),
        decreases lines@.len() - i,
    {
        moves.push(lines[i].mv);
        i += 1;
        assert(moves@ =~= heads(lines@).take(i as int));
    }
    assert(heads(lines@).take(i as int) =~= heads(lines@));
    moves
}

/// Keeps the best lines and notes the depth that they were searched to.
fn keep_best(lines: Vec<PVLine>, multi_pv: usize, depth: usize) -> (r: Vec<PVLine>)
    ensures
        r@.len() == min(lines@.len() as int, multi_pv as int),
        forall|i: int|
            0 <= i < r@.len() ==> #[trigger] r@[i] == (PVLine { depth, ..lines@[i] }),
{
    let ghost whole = lines@;
    let mut lines = lines;
    lines.truncate(multi_pv);
    let mut i: usize = 0;
    while i < lines.len()
        invariant
            i <= lines@.len(),
            lines@.len() == min(whole.len() as int, multi_pv as int),
            forall|k: int|
                0 <= k < i ==> #[trigger] lines@[k] == (PVLine { depth, ..whole[k] }),
            forall|k: int| i <= k < lines@.len() ==> #[trigger] lines@[k] == whole[k],
        decreases lines@.len() - i,
    {
        lines[i].depth = depth;
        i += 1;
    }
    lines
}

/// The best of the lines that were found, with the depth that they were searched
/// to.
pub open spec fn kept_of(kept: Seq<PVLine>, found: Seq<PVLine>, wanted: int, depth: usize) -> bool {
    &&& kept.len() == min(found.len() as int, wanted)
    &&& forall|i: int|
        0 <= i < kept.len() ==> #[trigger] kept[i] == (PVLine { depth, ..found[i] })
}

/// Where a search for the best lines stands: the point, the moves in the order of
/// the last iteration, and the best lines.
pub struct MultiPoint<H> {
    pub at: Point<H>,
    pub moves: Seq<Move>,
    pub best: Seq<PVLine>,
}

/// What a search for the best lines is asked for.
pub struct MultiTerms {
    pub thread_id: usize,
    pub max_depth: usize,
    pub wanted: usize,
    pub silent: bool,
}

/// The score of the best line.
pub open spec fn top_score(lines: Seq<PVLine>) -> Option<i32> {
    if lines.len() > 0 {
        Some(lines[0].score)
    } else {
        None
    }
}

/// The depth that lines were searched to: no more than what was reached.
pub open spec fn depth_reached(depth: usize, seldepth: usize) -> usize {
    let reached = if seldepth > 1 {
        seldepth
    } else {
        1
    };
    if depth < reached {
        depth
    } else {
        reached
    }
}

/// What is kept of the lines of an iteration: the best of them, the order of their
/// moves, and the best score. Unless the search is silent, they are told of.
pub open spec fn lines_kept<H: SearchHost>(
    d: Point<H>,
    lines: Seq<PVLine>,
    depth: usize,
    terms: MultiTerms,
    b: MultiPoint<H>,
) -> bool {
    &&& b.moves == heads(lines)
    &&& kept_of(
        b.best,
        lines,
        terms.wanted as int,
        depth_reached(depth, d.searcher.hot.seldepth),
    )
    &&& b.at.searcher == (Searcher {
        prev_score: (match top_score(lines) {
            Some(v) => v,
            None => (-INFINITY) as i32,
        }),
        ..d.searcher
    }).with_time_stops()
    &&& lines_told(&d.host, d.searcher, depth, b.best, terms.silent, &b.at.host)
}

pub open spec fn lines_told<H: SearchHost>(
    before: &H,
    searcher: Searcher,
    depth: usize,
    best: Seq<PVLine>,
    silent: bool,
    after: &H,
) -> bool {
    if silent {
        *after == *before
    } else {
        exists|lines: Vec<PVLine>| #[trigger]
            before.reports_lines(searcher, depth, lines, after) && lines@ == best
    }
}

/// Whether a search for lines goes on after an iteration: not where it has found a
/// decision, has used half of its time or has reached the last depth.
pub open spec fn lines_go_on<H: SearchHost>(
    host: &H,
    searcher: Searcher,
    best: Seq<PVLine>,
    last: bool,
    more: bool,
) -> bool {
    if best.len() > 0 && decisive(best[0].score as int) {
        !more
    } else if searcher.hot.time_limit_ms != u128::MAX {
        exists|clock: ClockReading| #[trigger]
            call_ensures(H::read_clock, (host,), clock) && more == (!last && clock.elapsed_ms
                < searcher.hot.time_limit_ms / 2)
    } else {
        more == !last
    }
}

/// One round of a search for the best lines, at a base depth. It is not started
/// where the time does not allow it.
#[verifier::opaque]
pub open spec fn multi_step<H: SearchHost>(
    a: MultiPoint<H>,
    terms: MultiTerms,
    base: usize,
    b: MultiPoint<H>,
    more: bool,
) -> bool {
    let depth = iteration_depth_of(terms.thread_id, base, terms.max_depth);
    let sought = LineTerms { depth, wanted: terms.wanted, last: top_score(a.best) };
    exists|c: Point<H>, clock: ClockReading|
        #![trigger iteration_opened(a.at, c), call_ensures(H::read_clock, (&c.host,), clock)]
        iteration_opened(a.at, c) && call_ensures(H::read_clock, (&c.host,), clock)
            && match start_of_iteration(
            c.searcher.hot,
            clock,
            if c.searcher.hot.is_soft_limit {
                76
            } else {
                60
            },
        ) {
            IterationStart::Stop => !more && b == (MultiPoint {
                at: at(c.host, c.searcher.with_stop()),
                ..a
            }),
            IterationStart::Skip => !more && b == (MultiPoint { at: c, ..a }),
            IterationStart::Go => exists|d: Point<H>, lines: Seq<PVLine>| #[trigger]
                lines_searched(c, a.moves, sought, d, lines) && if d.searcher.hot.stopped
                    && lines.len() == 0 {
                    !more && b == (MultiPoint { at: d, ..a })
                } else {
                    lines_kept(d, lines, depth, terms, b) && lines_go_on(
                        &b.at.host,
                        b.at.searcher,
                        b.best,
                        base == terms.max_depth,
                        more,
                    )
                },
        }
}

/// A search for the best lines stands at `end` after `n` rounds.
#[verifier::opaque]
pub open spec fn multi_reached<H: SearchHost>(
    start: MultiPoint<H>,
    terms: MultiTerms,
    first: usize,
    n: nat,
    end: MultiPoint<H>,
) -> bool
    decreases n,
{
    if n == 0 {
        end == start
    } else {
        exists|c: MultiPoint<H>| #[trigger]
            c.at.searcher.goes_on_between(&start.at.searcher) && multi_reached(
                start,
                terms,
                first,
                (n - 1) as nat,
                c,
            ) && multi_step(c, terms, (first + n - 1) as usize, end, true)
    }
}

/// Rounds of a search for the best lines from `a` to `b`, from the first depth of
/// the thread on, as long as there are more.
#[verifier::opaque]
pub open spec fn multi_deepened<H: SearchHost>(
    a: MultiPoint<H>,
    terms: MultiTerms,
    b: MultiPoint<H>,
) -> bool {
    let first = start_depth_of(terms.thread_id, terms.max_depth);
    if first > terms.max_depth {
        b == a
    } else {
        exists|n: nat, c: MultiPoint<H>|
            #![trigger
                c.at.searcher.goes_on_between(&a.at.searcher),
                multi_reached(a, terms, first, n, c)
            ]
            c.at.searcher.goes_on_between(&a.at.searcher) && first + n <= terms.max_depth
                && multi_reached(a, terms, first, n, c) && multi_step(
                c,
                terms,
                (first + n) as usize,
                b,
                false,
            )
    }
}

/// The best lines of a list of legal moves, found from `a` to `b`. There are none
/// where there is no move, and a single move is not searched.
pub open spec fn best_lines<H: SearchHost>(
    a: Point<H>,
    legal: Seq<Move>,
    max_depth: usize,
    multi_pv: usize,
    silent: bool,
    b: Point<H>,
    lines: Seq<PVLine>,
) -> bool {
    if legal.len() == 0 {
        lines.len() == 0 && b == a
    } else if legal.len() == 1 {
        lines.len() == 1 && lines[0].mv == legal[0] && lines[0].depth == 0 && lines[0].pv@.len()
            == 0 && single_move_judged(a, b, lines[0].score)
    } else {
        exists|end: MultiPoint<H>| #[trigger]
            multi_deepened(
                MultiPoint { at: a, moves: legal, best: Seq::empty() },
                MultiTerms {
                    thread_id: a.searcher.thread_id,
                    max_depth,
                    wanted: min(multi_pv as int, legal.len() as int) as usize,
                    silent,
                },
                end,
            ) && lines == end.best && b.host == end.at.host && if lines.len() > 0 {
                b.searcher.pv_restarted(&end.at.searcher, lines[0].mv)
            } else {
                b.searcher == end.at.searcher
            }
    }
}

/// What holds of the best lines: each starts with a legal move of its own, the
/// better ones come first, and there are no more than asked for. Where time does not
/// stop the search, there are as many as there are moves or as were asked for.
pub open spec fn sound_lines<H: SearchHost>(
    host: H,
    multi_pv: int,
    complete: bool,
    lines: Seq<PVLine>,
) -> bool {
    exists|legal: Seq<Move>, later: H| #[trigger]
        legal_listed(host, legal, later) && {
            &&& lines_ok(lines, legal)
            &&& lines.len() <= multi_pv
            &&& lines.len() <= legal.len()
            &&& legal.len() <= 1 || complete ==> lines.len() == min(multi_pv, legal.len() as int)
            &&& legal.len() > 1 ==> forall|i: int|
                0 <= i < lines.len() ==> (#[trigger] lines[i]).pv@.len() > 0
        }
}

/// A search for the best lines of a game, from `a` to `b`.
#[verifier::opaque]
pub open spec fn lines_answered<H: SearchHost>(
    a: Point<H>,
    max_depth: usize,
    multi_pv: usize,
    silent: bool,
    b: Point<H>,
    lines: Seq<PVLine>,
) -> bool {
    exists|c: H, legal: Seq<Move>| #[trigger]
        legal_listed(a.host, legal, c) && best_lines(
            at(c, a.searcher),
            legal,
            max_depth,
            multi_pv,
            silent,
            b,
            lines,
        )
}

/// Searches for the best lines of the position, deeper and deeper, until the
/// depth or the time is used up or a mate is found.
pub fn get_best_moves_multipv_impl<H: SearchHost>(
    searcher: &mut Searcher,
    host: &mut H,
    max_depth: usize,
    multi_pv: usize,
    silent: bool,
) -> (r: MultiPVResult)
    requires
        old(searcher).valid(),
        1 <= multi_pv,
        looks_ahead(old(searcher).thread_id) ==> max_depth >= 1,
    ensures
        final(searcher).goes_on_between(old(searcher)),
        lines_answered(
            at(*old(host), *old(searcher)),
            max_depth,
            multi_pv,
            silent,
            at(*final(host), *final(searcher)),
            r.lines@,
        ),
        sound_lines(
            *old(host),
            multi_pv as int,
            lines_untimed::<H>(old(searcher)) && max_depth >= 1,
            r.lines@,
        ),
        taken_back(*old(host), *final(host)),
        game_kept(*old(host), *final(host)),
        stats_told(final(searcher), final(host), r.stats),
{
    broadcast use taking_back_keeps_the_game;

    let ghost a0 = at(*host, *searcher);
    let moves = legal_root_moves(host);
    let ghost legal = moves@;
    let ghost a = at(*host, *searcher);
    let ghost all = choose|all: MoveList, illegal: Seq<bool>|
        #![trigger call_ensures(H::get_legal_moves, (&a0.host,), all), kept(all@, illegal)]
        call_ensures(H::get_legal_moves, (&a0.host,), all) && moves@ == kept(all@, illegal);
    assert(legal_listed(a0.host, legal, a.host));
    if moves.len() <= 1 {
        let mut best: Vec<PVLine> = Vec::new();
        if moves.len() == 1 {
            let m = moves[0];
            let raw: i32 = raw_eval(host);
            let ghost h1 = *host;
            let game = host.game();
            let ghost g = *game;
            let score: i32 = searcher.corrected_eval(game, raw, 0);
            proof {
                assert(raw_eval_of(&a.host, raw, &h1) && call_ensures(H::game, (&h1,), &g));
                assert(judged_at_root(&a.host, &h1, a.searcher, score));
                lemma_back_then(a0.host, a.host, h1);
            }
            best.push(PVLine { mv: m, score, depth: 0, pv: Vec::new() });
            assert(legal.contains(legal[0]));
            assert(heads(best@) =~= seq![m]);
        }
        proof {
            assert(best_lines(
                a,
                legal,
                max_depth,
                multi_pv,
                silent,
                at(*host, *searcher),
                best@,
            ));
            reveal(lines_answered);
            assert(lines_ok(best@, legal));
        }
        let stats = build_search_stats(searcher, host);
        return MultiPVResult { lines: best, stats };
    }
    let wanted: usize = if multi_pv < moves.len() {
        multi_pv
    } else {
        moves.len()
    };
    let best = deepen_lines(
        searcher,
        host,
        moves,
        max_depth,
        wanted,
        silent,
        Ghost(legal),
    );
    let ghost end = at(*host, *searcher);
    proof {
        lemma_back_then(a0.host, a.host, end.host);
    }
    if best.len() > 0 {
        let m = best[0].mv;
        searcher.set_root_pv(&m);
    }
    proof {
        reveal(Searcher::bearings);
        assert(best_lines(
            a,
            legal,
            max_depth,
            multi_pv,
            silent,
            at(*host, *searcher),
            best@,
        ));
        reveal(lines_answered);
    }
    let stats = build_search_stats(searcher, host);
    MultiPVResult { lines: best, stats }
}

/// Searches for the best lines of a list of moves, deeper and deeper.
#[verifier::rlimit(80)]
fn deepen_lines<H: SearchHost>(
    searcher: &mut Searcher,
    host: &mut H,
    moves: MoveList,
    max_depth: usize,
    wanted: usize,
    silent: bool,
    Ghost(legal): Ghost<Seq<Move>>,
) -> (r: Vec<PVLine>)
    requires
        old(searcher).valid(),
        moves@ == legal,
        1 <= wanted <= legal.len(),
        looks_ahead(old(searcher).thread_id) ==> max_depth >= 1,
    ensures
        final(searcher).goes_on_between(old(searcher)),
        exists|end: MultiPoint<H>| #[trigger]
            multi_deepened(
                MultiPoint {
                    at: at(*old(host), *old(searcher)),
                    moves: legal,
                    best: Seq::empty(),
                },
                MultiTerms { thread_id: old(searcher).thread_id, max_depth, wanted, silent },
                end,
            ) && r@ == end.best && end.at == at(*final(host), *final(searcher)),
        lines_ok(r@, legal),
        r@.len() <= wanted,
        lines_untimed::<H>(old(searcher)) && max_depth >= 1 ==> r@.len() == wanted,
        forall|i: int| 0 <= i < r@.len() ==> (#[trigger] r@[i]).pv@.len() > 0,
        taken_back(*old(host), *final(host)),
{
    let ghost a = at(*host, *searcher);
    let mut moves = moves;
    let mut best: Vec<PVLine> = Vec::new();
    let thread_id: usize = searcher.thread_id;
    let start: usize = start_depth(thread_id, max_depth);
    let mut base: usize = start;
    let ghost terms = MultiTerms { thread_id, max_depth, wanted, silent };
    let ghost origin = MultiPoint { at: a, moves: legal, best: Seq::<PVLine>::empty() };
    let ghost untimed = lines_untimed::<H>(searcher);
    proof {
        assert(best@ =~= Seq::<PVLine>::empty());
        assert(lines_ok(best@, legal));
        reveal(multi_reached);
        reveal(multi_deepened);
        reveal(Searcher::bearings);
        lemma_back_same(a.host);
        assert forall|i: int| 0 <= i < legal.len() implies legal.contains(#[trigger] legal[i]) by {}
    }
    if base > max_depth {
        assert(multi_deepened(origin, terms, origin));
        return best;
    }
    loop
        invariant
            1 <= start <= base <= max_depth,
            start == start_depth_of(thread_id, max_depth),
            thread_id == a.searcher.thread_id,
            a == at(*old(host), *old(searcher)),
            terms == (MultiTerms { thread_id, max_depth, wanted, silent }),
            origin == (MultiPoint { at: a, moves: legal, best: Seq::<PVLine>::empty() }),
            untimed == lines_untimed::<H>(old(searcher)),
            taken_back(a.host, *host),
            searcher.goes_on_between(old(searcher)),
            1 <= wanted <= legal.len(),
            moves@.len() > 0,
            among(moves@, legal),
            legal.no_duplicates() ==> moves@.no_duplicates(),
            lines_ok(best@, legal),
            best@.len() <= wanted,
            untimed ==> moves@.len() == legal.len(),
            untimed && base > start ==> best@.len() == wanted,
            forall|i: int| 0 <= i < best@.len() ==> (#[trigger] best@[i]).pv@.len() > 0,
            multi_reached(
                origin,
                terms,
                start,
                (base - start) as nat,
                MultiPoint { at: at(*host, *searcher), moves: moves@, best: best@ },
            ),
        decreases max_depth - base,
    {
        let ghost c0 = MultiPoint { at: at(*host, *searcher), moves: moves@, best: best@ };
        let ghost n = (base - start) as nat;
        let depth: usize = iteration_depth(thread_id, base, max_depth);
        searcher.begin_iteration();
        host.start_iteration();
        let ghost c = at(*host, *searcher);
        let clock = host.read_clock();
        let percent: u64 = if searcher.hot.is_soft_limit {
            76
        } else {
            60
        };
        proof {
            reveal(Searcher::bearings);
            assert(c0.at.host.starts_iteration(&c.host));
            lemma_back_steady(c0.at.host, c.host);
            lemma_back_then(a.host, c0.at.host, c.host);
            assert(iteration_opened(c0.at, c));
            assert(c0.at.searcher.goes_on_between(&a.searcher));
        }
        match judge_start(&searcher.hot, &clock, percent) {
            IterationStart::Go => {},
            IterationStart::Stop => {
                searcher.request_stop();
                proof {
                    reveal(multi_step);
                    let b = MultiPoint { at: at(*host, *searcher), moves: moves@, best: best@ };
                    assert(multi_step(c0, terms, base, b, false));
                    lemma_multi_end(origin, terms, n, c0, b);
                }
                return best;
            },
            IterationStart::Skip => {
                proof {
                    reveal(multi_step);
                    let b = MultiPoint { at: at(*host, *searcher), moves: moves@, best: best@ };
                    assert(multi_step(c0, terms, base, b, false));
                    lemma_multi_end(origin, terms, n, c0, b);
                }
                return best;
            },
        }
        let last: Option<i32> = if best.len() > 0 {
            Some(best[0].score)
        } else {
            None
        };
        let lines = search_lines(searcher, host, depth, &moves, wanted, last);
        let ghost d = at(*host, *searcher);
        let ghost found = lines@;
        let ghost whole = moves@;
        proof {
            lemma_back_then(a.host, c.host, d.host);
            let k = choose|k: int|
                0 <= k <= whole.len() && heads(found).to_multiset() == #[trigger] whole.take(
                    k,
                ).to_multiset() && (k == whole.len() || searcher.hot.stopped);
            lemma_part(heads(found), whole, k);
            assert(heads(found).len() == found.len());
            lemma_among(heads(found), whole, legal);
            assert(lines_searched(
                c,
                c0.moves,
                LineTerms { depth, wanted, last: top_score(c0.best) },
                d,
                found,
            ));
        }
        if searcher.hot.stopped && lines.len() == 0 {
            proof {
                reveal(multi_step);
                let b = MultiPoint { at: d, moves: moves@, best: best@ };
                assert(multi_step(c0, terms, base, b, false));
                lemma_multi_end(origin, terms, n, c0, b);
            }
            return best;
        }
        moves = take_heads(&lines);
        let top: i32 = if lines.len() > 0 {
            lines[0].score
        } else {
            -INFINITY
        };
        let reached: usize = if searcher.hot.seldepth > 1 {
            searcher.hot.seldepth
        } else {
            1
        };
        best =
        keep_best(
            lines,
            wanted,
            if depth < reached {
                depth
            } else {
                reached
            },
        );
        proof {
            lemma_best_kept(found, best@, legal);
        }
        if !silent {
            host.report_lines(searcher, depth, &best);
            proof {
                assert(d.host.reports_lines(d.searcher, depth, best, &*host));
                lemma_back_steady(d.host, *host);
                lemma_back_then(a.host, d.host, *host);
            }
        }
        searcher.set_prev_score(top);
        searcher.allow_time_stops();
        let ghost b = MultiPoint { at: at(*host, *searcher), moves: moves@, best: best@ };
        let mut more = base < max_depth;
        if best.len() > 0 && is_decisive(best[0].score) {
            more = false;
        } else if searcher.hot.time_limit_ms != u128::MAX {
            let clock = host.read_clock();
            if clock.elapsed_ms as u128 >= searcher.hot.time_limit_ms / 2 {
                more = false;
            }
            assert(call_ensures(H::read_clock, (&b.at.host,), clock));
        }
        proof {
            let h1 = *host;
            assert(lines_told(&d.host, d.searcher, depth, b.best, silent, &h1));
            assert(lines_kept(d, found, depth, terms, b));
            assert(lines_go_on(
                &b.at.host,
                b.at.searcher,
                b.best,
                base == max_depth,
                more,
            ));
            lemma_multi_step(c0, terms, base, c, clock, d, found, b, more);
        }
        if !more {
            proof {
                lemma_multi_end(origin, terms, n, c0, b);
            }
            return best;
        }
        base += 1;
        proof {
            reveal(multi_reached);
            assert(multi_reached(origin, terms, start, (base - start) as nat, b));
        }
    }
}

/// The best lines are as sound as the ones they were taken from.
proof fn lemma_best_kept(found: Seq<PVLine>, best: Seq<PVLine>, legal: Seq<Move>)
    requires
        best_first(found),
        among(heads(found), legal),
        legal.no_duplicates() ==> heads(found).no_duplicates(),
        best.len() <= found.len(),
        forall|i: int|
            0 <= i < best.len() ==> #[trigger] best[i] == (PVLine {
                depth: best[i].depth,
                ..found[i]
            }),
        forall|i: int|
            0 <= i < found.len() ==> is_score((#[trigger] found[i]).score as int)
                && found[i].pv@.len() > 0 && found[i].pv@[0] == found[i].mv,
    ensures
        lines_ok(best, legal),
        forall|i: int| 0 <= i < best.len() ==> (#[trigger] best[i]).pv@.len() > 0,
{
    assert forall|i: int| 0 <= i < best.len() implies #[trigger] heads(best)[i] == heads(
        found,
    )[i] by {
        assert(best[i] == (PVLine { depth: best[i].depth, ..found[i] }));
    }
    assert forall|i: int, j: int| 0 <= i < j < best.len() implies best[i].score
        >= best[j].score by {
        assert(found[i].score >= found[j].score);
    }
    assert forall|i: int| 0 <= i < heads(best).len() implies legal.contains(
        #[trigger] heads(best)[i],
    ) by {
        assert(legal.contains(heads(found)[i]));
    }
}

proof fn lemma_multi_step<H: SearchHost>(
    a: MultiPoint<H>,
    terms: MultiTerms,
    base: usize,
    c: Point<H>,
    clock: ClockReading,
    d: Point<H>,
    lines: Seq<PVLine>,
    b: MultiPoint<H>,
    more: bool,
)
    requires
        iteration_opened(a.at, c),
        call_ensures(H::read_clock, (&c.host,), clock),
        start_of_iteration(
            c.searcher.hot,
            clock,
            if c.searcher.hot.is_soft_limit {
                76
            } else {
                60
            },
        ) is Go,
        lines_searched(
            c,
            a.moves,
            LineTerms {
                depth: iteration_depth_of(terms.thread_id, base, terms.max_depth),
                wanted: terms.wanted,
                last: top_score(a.best),
            },
            d,
            lines,
        ),
        !(d.searcher.hot.stopped && lines.len() == 0),
        lines_kept(
            d,
            lines,
            iteration_depth_of(terms.thread_id, base, terms.max_depth),
            terms,
            b,
        ),
        lines_go_on(&b.at.host, b.at.searcher, b.best, base == terms.max_depth, more),
    ensures
        multi_step(a, terms, base, b, more),
{
    reveal(multi_step);
}

proof fn lemma_multi_end<H: SearchHost>(
    a: MultiPoint<H>,
    terms: MultiTerms,
    n: nat,
    c: MultiPoint<H>,
    b: MultiPoint<H>,
)
    requires
        c.at.searcher.goes_on_between(&a.at.searcher),
        start_depth_of(terms.thread_id, terms.max_depth) + n <= terms.max_depth,
        multi_reached(a, terms, start_depth_of(terms.thread_id, terms.max_depth), n, c),
        multi_step(
            c,
            terms,
            (start_depth_of(terms.thread_id, terms.max_depth) + n) as usize,
            b,
            false,
        ),
    ensures
        multi_deepened(a, terms, b),
{
    reveal(multi_deepened);
}

} // verus!
