//! The search of the root: all its moves, with the principal variation.
use crate::game::GameState;
use crate::moves::{Move, MoveList};
use crate::search::decisions::{flag_of, is_score, score_without_moves, tt_flag};
use crate::search::host::{
    probe_tt_with_shared, probed, store_tt_with_shared, table_told, SearchHost,
};
use crate::search::node::{negamax, without_moves};
use crate::search::quiescence::mates;
use crate::search::results::searched;
use crate::search::searcher::{Searcher, SearcherHot};
use crate::search::sorting::sort_moves_root;
use crate::search::stacks::Bearings;
use crate::search::steps::{
    at, game_kept, lemma_back_move, lemma_back_same, lemma_back_then, taken_back,
    taking_back_keeps_the_game, Point,
};
use crate::search::tt_defs::{TTFlag, TTProbeResult};
use crate::search::{
    NegamaxContext, NodeType, ProbeContext, StoreContext, INFINITY, NO_VALUE,
};
use vstd::prelude::*;

verus! {

/// The squares of a move.
pub open spec fn squares_of(m: Move) -> (i64, i64, i64, i64) {
    (m.from.x, m.from.y, m.to.x, m.to.y)
}

impl Searcher {
    /// Whether a root move is left out.
    pub open spec fn excludes(&self, m: Move) -> bool {
        self.excluded_moves@.contains(squares_of(m))
    }

    pub fn is_excluded(&self, m: &Move) -> (r: bool)
        ensures
            r == self.excludes(*m),
    {
        let mut i: usize = 0;
        while i < self.excluded_moves.len()
            invariant
                i <= self.excluded_moves@.len(),
                forall|k: int|
                    0 <= k < i ==> #[trigger] self.excluded_moves@[k] != squares_of(*m),
            decreases self.excluded_moves@.len() - i,
        {
            let e = self.excluded_moves[i];
            if e.0 == m.from.x && e.1 == m.from.y && e.2 == m.to.x && e.3 == m.to.y {
                assert(self.excluded_moves@[i as int] == squares_of(*m));
                return true;
            }
            i += 1;
        }
        false
    }

    /// A later state of the same search at the root. Only the nodes spent on
    /// the first move may have been noted anew.
    pub open spec fn goes_on_at_root(&self, before: &Searcher) -> bool {
        &&& self.valid()
        &&& self.bearings() == (Bearings {
            best_move_nodes: self.hot.best_move_nodes,
            ..before.bearings()
        })
        &&& self.hot.nodes >= before.hot.nodes
        &&& before.hot.stopped ==> self.hot.stopped
        &&& before.bearings().is_untimed() ==> self.hot.stopped == before.hot.stopped
    }
}

proof fn lemma_root_steps(a: &Searcher, b: &Searcher, c: &Searcher)
    requires
        b.goes_on_at_root(a),
        c.goes_on(b),
    ensures
        c.goes_on_at_root(a),
{
    reveal(Searcher::bearings);
}

/// The position after a root move, to be searched with a window of the root.
pub open spec fn root_child(
    depth: usize,
    alpha: i32,
    beta: i32,
    node_type: NodeType,
) -> NegamaxContext {
    NegamaxContext {
        depth: (depth - 1) as usize,
        ply: 1,
        alpha: (-beta) as i32,
        beta: (-alpha) as i32,
        allow_null: true,
        node_type,
        was_null_move: false,
        excluded_move: None,
    }
}

pub(crate) fn root_child_ctx(
    depth: usize,
    alpha: i32,
    beta: i32,
    node_type: NodeType,
) -> (r: NegamaxContext)
    requires
        1 <= depth,
        is_score(alpha as int),
        is_score(beta as int),
    ensures
        r == root_child(depth, alpha, beta, node_type),
{
    NegamaxContext {
        depth: depth - 1,
        ply: 1,
        alpha: -beta,
        beta: -alpha,
        allow_null: true,
        node_type,
        was_null_move: false,
        excluded_move: None,
    }
}

/// The window that a root move is first searched with: the one given, or a null
/// window above what the move has to beat.
pub open spec fn first_window(
    depth: usize,
    first: bool,
    alpha: i32,
    beta: i32,
) -> NegamaxContext {
    if first {
        root_child(depth, alpha, beta, NodeType::PV)
    } else {
        root_child(depth, alpha, (alpha + 1) as i32, NodeType::Cut)
    }
}

/// A root move is made at `a`, and noted as the one before the next ply.
pub open spec fn root_made<H: SearchHost>(
    a: Point<H>,
    m: Move,
    undo: H::Undo,
    c: Point<H>,
) -> bool {
    a.host.makes(m, undo, &c.host) && c.searcher.root_move_noted(&a.searcher, m)
}

/// A root move that was made at `a` is taken back, and what was noted there before
/// is put back.
pub open spec fn root_unmade<H: SearchHost>(
    a: Point<H>,
    m: Move,
    undo: H::Undo,
    e: Point<H>,
    b: Point<H>,
) -> bool {
    e.host.unmakes(m, undo, &b.host) && b.searcher.root_move_forgotten(
        &e.searcher,
        a.searcher.prev_move_stack@[0],
    )
}

/// A root move may be scored like this, from `a` to `b`: the first one with the
/// full window, the others with a null window first.
#[verifier::opaque]
pub open spec fn root_move_scored<H: SearchHost>(
    a: Point<H>,
    m: Move,
    depth: usize,
    alpha: i32,
    beta: i32,
    first: bool,
    b: Point<H>,
    score: i32,
) -> bool {
    exists|undo: H::Undo, c: Point<H>, d: Point<H>, e: Point<H>, v: i32|
        #![trigger
            root_made(a, m, undo, c),
            searched(c, first_window(depth, first, alpha, beta), d, v),
            root_unmade(a, m, undo, e, b)
        ]
        root_made(a, m, undo, c) && searched(c, first_window(depth, first, alpha, beta), d, v)
            && root_unmade(a, m, undo, e, b) && if !first && alpha < -v < beta {
            exists|w: i32| #[trigger]
                searched(d, root_child(depth, alpha, beta, NodeType::PV), e, w) && score == -w
        } else {
            e == d && score == -v
        }
}

/// Searches the position after a root move: the first one with the full
/// window, the others with a null window first.
pub fn search_root_move<H: SearchHost>(
    searcher: &mut Searcher,
    host: &mut H,
    m: &Move,
    depth: usize,
    alpha: i32,
    beta: i32,
    first: bool,
) -> (r: i32)
    requires
        old(searcher).valid(),
        1 <= depth,
        is_score(alpha as int),
        is_score(beta as int),
        alpha < beta,
    ensures
        final(searcher).goes_on(old(searcher)),
        final(searcher).keeps_pv_before(old(searcher), 1),
        is_score(r as int),
        root_move_scored(
            at(*old(host), *old(searcher)),
            *m,
            depth,
            alpha,
            beta,
            first,
            at(*final(host), *final(searcher)),
            r,
        ),
        taken_back(*old(host), *final(host)),
{
    let ghost a = at(*host, *searcher);
    let undo = host.make_move(m);
    let ghost u = undo;
    let squares = searcher.note_root_move(m);
    let ghost c = at(*host, *searcher);
    assert(root_made(a, *m, u, c));
    let ghost ctx = first_window(depth, first, alpha, beta);
    let ghost mut d = c;
    let score: i32 = if first {
        let v: i32 = negamax(searcher, host, &root_child_ctx(depth, alpha, beta, NodeType::PV));
        proof {
            d = at(*host, *searcher);
            assert(searched(c, ctx, d, v));
        }
        -v
    } else {
        let v: i32 = negamax(
            searcher,
            host,
            &root_child_ctx(depth, alpha, alpha + 1, NodeType::Cut),
        );
        proof {
            d = at(*host, *searcher);
            assert(searched(c, ctx, d, v));
        }
        let s: i32 = -v;
        if s > alpha && s < beta {
            let w: i32 = negamax(
                searcher,
                host,
                &root_child_ctx(depth, alpha, beta, NodeType::PV),
            );
            proof {
                lemma_back_then(c.host, d.host, *host);
                assert(searched(
                    d,
                    root_child(depth, alpha, beta, NodeType::PV),
                    at(*host, *searcher),
                    w,
                ));
            }
            -w
        } else {
            s
        }
    };
    let ghost e = at(*host, *searcher);
    host.undo_move(m, undo);
    searcher.forget_root_move(squares, Ghost(a.searcher), Ghost(*m), Ghost(c.searcher));
    proof {
        let b = at(*host, *searcher);
        lemma_back_move(a.host, c.host, e.host, b.host, *m, u);
        assert(root_unmade(a, *m, u, e, b));
        reveal(root_move_scored);
    }
    score
}

/// The table has this move for the root.
pub open spec fn table_has<H: SearchHost>(
    host: &H,
    ctx: ProbeContext,
    tt_move: Option<Move>,
) -> bool {
    exists|found: Option<TTProbeResult>| #[trigger]
        probed(host, ctx, found) && tt_move == (match found {
            Some(res) => res.best_move,
            None => None,
        })
}

/// What the table is asked about the root.
pub open spec fn root_probe(
    game: GameState,
    rule_limit: i32,
    depth: usize,
    alpha: i32,
    beta: i32,
) -> ProbeContext {
    ProbeContext {
        hash: game.hash,
        alpha,
        beta,
        depth,
        ply: 0,
        rule50_count: game.halfmove_clock,
        rule_limit,
    }
}

/// What the table is told of the root.
pub open spec fn root_entry(
    game: GameState,
    depth: usize,
    flag: TTFlag,
    score: i32,
    best_move: Option<Move>,
) -> StoreContext {
    StoreContext {
        hash: game.hash,
        depth,
        flag,
        score,
        static_eval: NO_VALUE,
        is_pv: true,
        best_move,
        ply: 0,
    }
}

/// What the root has found so far.
pub struct RootFound {
    /// The score that a move has to beat.
    pub raised: i32,
    pub best_score: i32,
    pub best_move: Option<Move>,
    pub legal_moves: usize,
}

impl RootFound {
    /// Whether the next move is the first one.
    pub open spec fn none_yet(self) -> bool {
        self.legal_moves == 0
    }
}

/// What the root has found after the score of a move.
pub open spec fn root_after(f: RootFound, m: Move, score: i32) -> RootFound {
    RootFound {
        raised: if score > f.best_score && score > f.raised {
            score
        } else {
            f.raised
        },
        best_score: if score > f.best_score {
            score
        } else {
            f.best_score
        },
        best_move: if score > f.best_score {
            Some(m)
        } else {
            f.best_move
        },
        legal_moves: (f.legal_moves + 1) as usize,
    }
}

/// Where the root stands among its moves, and what it has found.
pub struct RootPoint<H> {
    pub at: Point<H>,
    pub found: RootFound,
}

impl<H> RootPoint<H> {
    /// Whether more moves are searched.
    pub open spec fn open(self, beta: i32) -> bool {
        self.at.sound() && self.found.raised < beta
    }
}

/// What the searcher keeps of a root move and its score: the principal variation
/// where the move raises alpha; and the nodes spent on the very first one, unless
/// it fails high.
pub open spec fn root_kept(
    before: Searcher,
    searched: Searcher,
    m: Move,
    index: int,
    beta: i32,
    q: RootFound,
    score: i32,
    after: Searcher,
) -> bool {
    exists|line: Searcher| #[trigger]
        line.valid() && (if score > q.best_score && score > q.raised {
            line.pv_put(&searched, 0, m)
        } else {
            line == searched
        }) && after == (if root_after(q, m, score).raised < beta && index == 0 {
            Searcher {
                hot: SearcherHot {
                    best_move_nodes: (line.hot.nodes - before.hot.nodes) as u64,
                    ..line.hot
                },
                ..line
            }
        } else {
            line
        })
}

/// One move of the root is searched, from `a` to `b`. Where the search was stopped,
/// its score does not count.
#[verifier::opaque]
pub open spec fn root_step<H: SearchHost>(
    a: RootPoint<H>,
    m: Move,
    index: int,
    depth: usize,
    beta: i32,
    b: RootPoint<H>,
    stopped: bool,
) -> bool {
    exists|c: Point<H>, score: i32| #[trigger]
        root_move_scored(
            a.at,
            m,
            depth,
            a.found.raised,
            beta,
            a.found.none_yet(),
            c,
            score,
        ) && stopped == c.searcher.hot.stopped && if stopped {
            b == (RootPoint { at: c, found: a.found })
        } else {
            b.found == root_after(a.found, m, score) && b.at.host == c.host && root_kept(
                a.at.searcher,
                c.searcher,
                m,
                index,
                beta,
                a.found,
                score,
                b.at.searcher,
            )
        }
}

/// The root stands at `end` after its first `n` moves; those left out are skipped.
#[verifier::opaque]
pub open spec fn root_reached<H: SearchHost>(
    start: RootPoint<H>,
    moves: Seq<Move>,
    depth: usize,
    beta: i32,
    n: nat,
    end: RootPoint<H>,
) -> bool
    decreases n,
{
    if n == 0 {
        end == start
    } else if start.at.searcher.excludes(moves[n - 1]) {
        end.open(beta) && root_reached(start, moves, depth, beta, (n - 1) as nat, end)
    } else {
        exists|c: RootPoint<H>| #[trigger]
            c.open(beta) && root_reached(start, moves, depth, beta, (n - 1) as nat, c) && root_step(
                c,
                moves[n - 1],
                n - 1,
                depth,
                beta,
                end,
                false,
            )
    }
}

/// The moves of the root in order, with the table's move in view.
pub open spec fn root_ordered<H: SearchHost>(
    host: &H,
    searcher: Searcher,
    depth: usize,
    alpha: i32,
    beta: i32,
    moves: MoveList,
    ordered: MoveList,
) -> bool {
    exists|game: GameState, tt_move: Option<Move>|
        #![trigger
            call_ensures(H::game, (host,), &game),
            call_ensures(
                sort_moves_root::<H>,
                (&searcher, host, &moves, &tt_move),
                ordered,
            )
        ]
        call_ensures(H::game, (host,), &game) && table_has(
            host,
            root_probe(game, searcher.move_rule_limit, depth, alpha, beta),
            tt_move,
        ) && call_ensures(sort_moves_root::<H>, (&searcher, host, &moves, &tt_move), ordered)
}

/// The end of a search of the root that was not stopped. The score is the best of
/// its moves, and the table is told; or that of a position without moves.
pub open spec fn root_ended<H: SearchHost>(
    a: Point<H>,
    end: RootPoint<H>,
    depth: usize,
    alpha: i32,
    beta: i32,
    b: Point<H>,
    score: i32,
) -> bool {
    if end.found.legal_moves > 0 {
        score == end.found.best_score && b.searcher == end.at.searcher && root_told(
            &a.host,
            &end.at.host,
            depth,
            flag_of(score as int, alpha as int, beta as int),
            score,
            end.found.best_move,
            &b.host,
        )
    } else {
        b == end.at && root_without_moves(&a.host, &end.at.host, score)
    }
}

/// The table is told of the root.
pub open spec fn root_told<H: SearchHost>(
    root: &H,
    host: &H,
    depth: usize,
    flag: TTFlag,
    score: i32,
    best_move: Option<Move>,
    later: &H,
) -> bool {
    exists|game: GameState| #[trigger]
        call_ensures(H::game, (root,), &game) && table_told(
            host,
            root_entry(game, depth, flag, score, best_move),
            later,
        )
}

/// The score of a root without moves.
pub open spec fn root_without_moves<H: SearchHost>(root: &H, host: &H, score: i32) -> bool {
    exists|in_check: bool| #[trigger]
        call_ensures(H::is_in_check, (root,), in_check) && without_moves(
            host,
            in_check,
            0,
            score as int,
        )
}

/// A search of the root from `a` may have this score and lead to `b`. The moves
/// are put in order. A search that was stopped has the best score until then.
#[verifier::opaque]
pub open spec fn root_result<H: SearchHost>(
    a: Point<H>,
    moves: MoveList,
    depth: usize,
    alpha: i32,
    beta: i32,
    ordered: MoveList,
    b: Point<H>,
    score: i32,
) -> bool {
    exists|s0: Searcher, n: nat, end: RootPoint<H>|
        #![trigger
            s0.pv_cleared(&a.searcher, 0),
            root_reached(
                root_start(at(a.host, s0), alpha),
                ordered@,
                depth,
                beta,
                n,
                end,
            )
        ]
        s0.pv_cleared(&a.searcher, 0) && root_ordered(
            &a.host,
            s0,
            depth,
            alpha,
            beta,
            moves,
            ordered,
        ) && n <= ordered@.len() && root_reached(
            root_start(at(a.host, s0), alpha),
            ordered@,
            depth,
            beta,
            n,
            end,
        ) && if n == ordered@.len() || end.found.raised >= beta {
            root_ended(a, end, depth, alpha, beta, b, score)
        } else {
            score == end.found.best_score && root_step(
                end,
                ordered@[n as int],
                n as int,
                depth,
                beta,
                RootPoint { at: b, found: end.found },
                true,
            )
        }
}

/// The root before its first move.
pub open spec fn root_start<H>(a: Point<H>, alpha: i32) -> RootPoint<H> {
    RootPoint {
        at: a,
        found: RootFound {
            raised: alpha,
            best_score: (-INFINITY) as i32,
            best_move: None,
            legal_moves: 0,
        },
    }
}

/// Searches the root. The moves are put in order; those left out are skipped.
#[verifier::rlimit(40)]
pub fn negamax_root<H: SearchHost>(
    searcher: &mut Searcher,
    host: &mut H,
    depth: usize,
    alpha: i32,
    beta: i32,
    moves: &mut MoveList,
) -> (r: i32)
    requires
        old(searcher).valid(),
        1 <= depth,
        is_score(alpha as int),
        is_score(beta as int),
        alpha < beta,
    ensures
        final(searcher).goes_on_at_root(old(searcher)),
        is_score(r as int),
        final(moves)@.to_multiset() == old(moves)@.to_multiset(),
        root_result(
            at(*old(host), *old(searcher)),
            *old(moves),
            depth,
            alpha,
            beta,
            *final(moves),
            at(*final(host), *final(searcher)),
            r,
        ),
        taken_back(*old(host), *final(host)),
        game_kept(*old(host), *final(host)),
        old(moves)@.len() == 0 ==> final(searcher).hot.nodes == old(searcher).hot.nodes,
        // A principal variation starts with one of the moves.
        final(searcher).pv_length@[0] > 0 ==> {
            &&& final(searcher).pv_table@[0] is Some
            &&& old(moves)@.contains(final(searcher).pv_table@[0]->0)
            &&& !old(searcher).excludes(final(searcher).pv_table@[0]->0)
            &&& r > alpha
        },
        final(searcher).pv_length@[0] == 0 ==> final(searcher).pv_table@[0] == old(
            searcher,
        ).pv_table@[0],
        // Without one, no move was better than alpha.
        final(searcher).pv_length@[0] == 0 && !final(searcher).hot.stopped && (exists|m: Move|
            old(moves)@.contains(m) && !(#[trigger] old(searcher).excludes(m))) ==> r <= alpha,
        // With no move to search, the game is lost or drawn.
        (forall|m: Move| #[trigger] old(moves)@.contains(m) ==> old(searcher).excludes(m))
            ==> exists|in_check: bool| #[trigger]
            call_ensures(H::is_in_check, (&*old(host),), in_check) && without_moves(
                &*old(host),
                in_check,
                0,
                r as int,
            ),
{
    broadcast use taking_back_keeps_the_game;

    let ghost a = at(*host, *searcher);
    let ghost listed = *moves;
    let mut raised: i32 = alpha;
    searcher.clear_pv(0);
    let game = host.game();
    let hash: u64 = game.hash;
    let ghost root = *game;
    let found = probe_tt_with_shared(
        host,
        &ProbeContext {
            hash,
            alpha,
            beta,
            depth,
            ply: 0,
            rule50_count: game.halfmove_clock,
            rule_limit: searcher.move_rule_limit,
        },
    );
    let tt_move = match found {
        Some(res) => res.best_move,
        None => None,
    };
    let ghost s0 = *searcher;
    let ghost start = root_start(at(a.host, s0), alpha);
    assert(table_has(
        &a.host,
        root_probe(root, s0.move_rule_limit, depth, alpha, beta),
        tt_move,
    ));
    let in_check = host.is_in_check();
    let sorted = sort_moves_root(searcher, host, moves, &tt_move);
    *moves = sorted;
    let mut best_score: i32 = -INFINITY;
    let mut best_move: Option<Move> = None;
    let mut legal_moves: usize = 0;
    let mut i: usize = 0;
    proof {
        assert(root_ordered(&a.host, s0, depth, alpha, beta, listed, *moves));
        reveal(Searcher::bearings);
        reveal(root_reached);
        lemma_back_same(a.host);
    }
    while i < moves.len() && raised < beta
        invariant
            i <= moves@.len(),
            a == at(*old(host), *old(searcher)),
            listed == *old(moves),
            start == root_start(at(a.host, s0), alpha),
            s0.pv_cleared(&a.searcher, 0),
            call_ensures(H::game, (&a.host,), &root),
            root_ordered(&a.host, s0, depth, alpha, beta, listed, *moves),
            taken_back(a.host, *host),
            legal_moves == 0 ==> *host == a.host,
            call_ensures(H::is_in_check, (&a.host,), in_check),
            i == 0 ==> searcher.hot.nodes == old(searcher).hot.nodes,
            legal_moves <= i,
            1 <= depth,
            is_score(alpha as int),
            is_score(beta as int),
            alpha <= raised,
            is_score(raised as int),
            is_score(best_score as int),
            searcher.goes_on_at_root(old(searcher)),
            moves@.to_multiset() == old(moves)@.to_multiset(),
            best_score <= raised,
            searcher.pv_length@[0] > 0 ==> {
                &&& searcher.pv_table@[0] is Some
                &&& moves@.contains(searcher.pv_table@[0]->0)
                &&& !old(searcher).excludes(searcher.pv_table@[0]->0)
                &&& legal_moves > 0
                &&& alpha < raised
                &&& best_score == raised
                &&& best_move == searcher.pv_table@[0]
            },
            searcher.pv_length@[0] == 0 ==> searcher.pv_table@[0] == old(searcher).pv_table@[0]
                && raised == alpha,
            legal_moves == 0 ==> forall|k: int|
                0 <= k < i ==> old(searcher).excludes(#[trigger] moves@[k]),
            legal_moves > 0 ==> exists|k: int|
                0 <= k < i && !old(searcher).excludes(#[trigger] moves@[k]),
            root_reached(
                start,
                moves@,
                depth,
                beta,
                i as nat,
                RootPoint {
                    at: at(*host, *searcher),
                    found: RootFound { raised, best_score, best_move, legal_moves },
                },
            ),
        decreases moves@.len() - i,
    {
        let ghost c = RootPoint {
            at: at(*host, *searcher),
            found: RootFound { raised, best_score, best_move, legal_moves },
        };
        assert(c.open(beta));
        let m = moves[i];
        let idx: usize = i;
        i += 1;
        let excluded = searcher.is_excluded(&m);
        proof {
            reveal(Searcher::bearings);
            reveal(root_reached);
        }
        if excluded {
            continue;
        }
        let before: u64 = searcher.hot.nodes;
        legal_moves += 1;
        let ghost s1 = *searcher;
        let score: i32 = search_root_move(
            searcher,
            host,
            &m,
            depth,
            raised,
            beta,
            legal_moves == 1,
        );
        let ghost d = at(*host, *searcher);
        assert(!old(searcher).excludes(moves@[idx as int]));
        proof {
            lemma_root_steps(old(searcher), &s1, searcher);
            lemma_back_then(a.host, c.at.host, *host);
            broadcast use vstd::seq_lib::group_to_multiset_ensures;

            assert(moves@.contains(m));
            assert(root_move_scored(
                c.at,
                m,
                depth,
                c.found.raised,
                beta,
                c.found.none_yet(),
                d,
                score,
            ));
            reveal(root_step);
        }
        if searcher.hot.stopped {
            proof {
                lemma_same_members(moves@, old(moves)@);
                assert(old(moves)@.contains(m));
                let b = RootPoint { at: d, found: c.found };
                assert(root_step(c, m, idx as int, depth, beta, b, true));
                reveal(root_result);
                assert(root_result(a, listed, depth, alpha, beta, *moves, d, best_score));
                taking_back_keeps_the_game(a.host, d.host);
            }
            return best_score;
        }
        if score > best_score {
            best_score = score;
            best_move = Some(m);
            if score > raised {
                raised = score;
                let ghost s2 = *searcher;
                searcher.update_pv(0, &m);
                proof {
                    lemma_root_steps(old(searcher), &s2, searcher);
                }
            }
        }
        let ghost line = *searcher;
        if raised < beta && idx == 0 {
            let spent: u64 = searcher.hot.nodes - before;
            searcher.set_best_move_nodes(spent);
        }
        proof {
            let f = RootFound { raised, best_score, best_move, legal_moves };
            assert(f == root_after(c.found, m, score));
            assert(line.valid());
            assert(root_kept(
                c.at.searcher,
                d.searcher,
                m,
                idx as int,
                beta,
                c.found,
                score,
                *searcher,
            ));
            let b = RootPoint { at: at(*host, *searcher), found: f };
            assert(root_step(c, m, idx as int, depth, beta, b, false));
        }
    }
    let ghost end = RootPoint {
        at: at(*host, *searcher),
        found: RootFound { raised, best_score, best_move, legal_moves },
    };
    proof {
        lemma_same_members(moves@, old(moves)@);
        reveal(root_result);
    }
    if legal_moves == 0 {
        let checkmate = in_check && host.must_escape_check();
        let game = host.game();
        let no_pieces = !host.has_pieces(game.turn);
        let score: i32 = score_without_moves(checkmate, no_pieces, 0);
        proof {
            assert(mates(&a.host, in_check, checkmate));
            assert(without_moves(&a.host, in_check, 0, score as int));
            assert(root_without_moves(&a.host, &a.host, score));
            assert forall|m: Move| #[trigger] old(moves)@.contains(m) implies old(
                searcher,
            ).excludes(m) by {
                assert(moves@.contains(m));
            }
            assert(root_ended(a, end, depth, alpha, beta, end.at, score));
            assert(root_result(a, listed, depth, alpha, beta, *moves, end.at, score));
        }
        return score;
    }
    proof {
        let k = choose|k: int|
            0 <= k < moves@.len() && !old(searcher).excludes(#[trigger] moves@[k]);
        assert(moves@.contains(moves@[k]));
        assert(old(moves)@.contains(moves@[k]));
    }
    let entry = StoreContext {
        hash,
        depth,
        flag: tt_flag(best_score, alpha, beta),
        score: best_score,
        static_eval: NO_VALUE,
        is_pv: true,
        best_move,
        ply: 0,
    };
    let ghost flag = flag_of(best_score as int, alpha as int, beta as int);
    assert(entry == root_entry(root, depth, flag, best_score, best_move));
    store_tt_with_shared(host, &entry);
    proof {
        let b = at(*host, *searcher);
        lemma_back_then(a.host, end.at.host, b.host);
        assert(root_told(
            &a.host,
            &end.at.host,
            depth,
            flag,
            best_score,
            best_move,
            &b.host,
        ));
        assert(root_ended(a, end, depth, alpha, beta, b, best_score));
        assert(root_result(a, listed, depth, alpha, beta, *moves, b, best_score));
    }
    best_score
}

/// Lists with the same moves, each as often, contain the same moves.
pub(crate) proof fn lemma_same_members(a: Seq<Move>, b: Seq<Move>)
    requires
        a.to_multiset() == b.to_multiset(),
    ensures
        a.len() == b.len(),
        forall|m: Move| #[trigger] a.contains(m) <==> b.contains(m),
{
    a.to_multiset_ensures();
    b.to_multiset_ensures();
    assert forall|m: Move| #[trigger] a.contains(m) <==> b.contains(m) by {
        vstd::seq_lib::to_multiset_contains(a, m);
        vstd::seq_lib::to_multiset_contains(b, m);
    }
}

} // verus!
