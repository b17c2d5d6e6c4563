//! Which scores a search may find: what the game answers, what is known of a
//! node without searching, and the scores of the positions after its moves
//! decide. Each of these says from which point to which a part of the search
//! leads: every move made and taken back, every entry of the table and every
//! lesson on the way is accounted for.
use crate::arith::max;
use crate::game::GameState;
use crate::moves::Move;
use crate::search::decisions::{
    is_score, late_move_count, leaf_prunable, leaf_verdict, probcut_bound, singular_bound,
    singular_outcome, singular_terms, small_probcut_score, softened, LeafVerdict, Singular,
};
use crate::search::host::{raw_eval_of, table_told, SearchHost};
use crate::search::node::{
    after_null_move, after_score, against_raised, asks_again, assessed, capped, closing_entry,
    confirming, entered, first_search, futile, held_entry, later_search, lessons, looked_at,
    move_judged, moves_prunable, null_tried, null_verdict, outcome, probcut_tried, razored,
    reduced_by, same_step, second_search, table_cut, taught, unpruned, without, without_moves,
    MoveInfo, Node, NodeEntry, NullVerdict, Progress,
};
use crate::search::ordering::square_slot;
use crate::search::quiescence::{found_illegal, quiet_result};
use crate::search::searcher::{pawn_slot, Searcher};
use crate::search::stacks::PlyRecord;
use crate::search::steps::{at, offered, runs_out, Point, Stage};
use crate::search::{decisive, NegamaxContext, NodeType, INFINITY, MAX_PLY};
use vstd::prelude::*;

verus! {

/// A score, where there is one.
pub open spec fn scores(found: Option<i32>) -> bool {
    found matches Some(v) ==> is_score(v as int)
}

/// What a node has found before its first move.
pub open spec fn nothing_found(node: Node, p: Progress) -> bool {
    &&& p.alpha == node.alpha
    &&& p.depth == node.depth
    &&& p.best_score == -INFINITY
    &&& p.best_move is None
    &&& p.legal_moves == 0
    &&& p.quiets@.len() == 0
    &&& match p.singular {
        Some((v, d)) => singular_terms(node.tt, node.depth as int, node.in_check) == Some(
            (v, d as int),
        ),
        None => singular_terms(node.tt, node.depth as int, node.in_check) is None,
    }
}

/// What a node has found once a legal move is counted.
pub open spec fn move_counted(before: Progress, after: Progress, info: MoveInfo) -> bool {
    &&& after == (Progress {
        legal_moves: (before.legal_moves + 1) as usize,
        quiets: after.quiets,
        ..before
    })
    &&& after.quiets@ == (if !info.is_capture && info.m.promotion is None {
        before.quiets@.push(info.m)
    } else {
        before.quiets@
    })
}

/// Whether the opponent is given a free move: also where the side to move has
/// pieces.
pub open spec fn null_due<H: SearchHost>(host: &H, node: Node, due: bool) -> bool {
    if null_tried(node) {
        exists|game: &GameState| #[trigger]
            call_ensures(H::game, (host,), game) && call_ensures(
                H::has_non_pawn_material,
                (host, game.turn),
                due,
            )
    } else {
        !due
    }
}

/// Whether the search without the table move is due.
pub open spec fn singular_due<H: SearchHost>(
    host: &H,
    searcher: Searcher,
    node: Node,
    p: Progress,
    info: MoveInfo,
    due: bool,
) -> bool {
    if p.singular is Some && info.is_tt_move && !(node.node_type is PV) && node.excluded is None
        && p.depth >= (if node.tt_pv {
        7int
    } else {
        6
    }) {
        exists|game: &GameState| #[trigger]
            call_ensures(H::game, (host,), game) && due == !searcher.shuffles(
                *game,
                info.m,
                node.ply as int,
            )
    } else {
        !due
    }
}

/// The limit of the search without the table move.
pub open spec fn singular_limit(searcher: Searcher, p: Progress) -> i32 {
    singular_bound((p.singular->0).0 as int, p.depth as int, searcher.tt_move_history as int) as i32
}

/// What follows from the search without the table move.
pub open spec fn singular_verdict(node: Node, p: Progress, limit: i32, value: i32) -> Singular {
    singular_outcome(
        value as int,
        limit as int,
        node.beta as int,
        p.depth as int,
        node.tt_capture,
        node.static_eval - node.raw_eval,
        node.tt.value,
        node.node_type is Cut,
    )
}

/// What a node has found once the table move was tested.
pub open spec fn singular_tested(p: Progress, verdict: Singular) -> Progress {
    Progress {
        singular: None,
        depth: if verdict is Extend {
            (p.depth + 1) as usize
        } else {
            p.depth
        },
        ..p
    }
}

/// The depth of a later move, with the reduction already taken off, or nothing
/// where the move is dropped for its history.
pub open spec fn leaf_judged<H: SearchHost>(
    host: &H,
    searcher: Searcher,
    node: Node,
    p: Progress,
    info: MoveInfo,
    depth: int,
    r: Option<int>,
) -> bool {
    if leaf_prunable(
        !info.is_capture && info.m.promotion is None,
        info.gives_check,
        node.in_check,
        node.node_type is PV,
        p.depth as int,
        p.legal_moves as int,
        p.best_score as int,
    ) {
        exists|game: &GameState| #[trigger]
            call_ensures(H::game, (host,), game) && r == (match leaf_verdict(
                depth,
                searcher.history@[info.m.piece.piece_type.index_spec()]@[square_slot(
                    info.m.to.x,
                    info.m.to.y,
                )] + searcher.pawn_history@[pawn_slot(
                    game.pawn_hash,
                    info.m.piece.piece_type.index_spec(),
                    square_slot(info.m.to.x, info.m.to.y),
                )],
            ) {
                LeafVerdict::Drop => None,
                LeafVerdict::Keep(d) => Some(max(d as int, 0)),
            })
    } else {
        r == Some(max(depth, 0))
    }
}

/// The score of a node whose moves were searched.
pub open spec fn node_scored<H: SearchHost>(host: &H, node: Node, p: Progress, score: int) -> bool {
    if p.legal_moves > 0 {
        score == softened(
            p.best_score as int,
            p.alpha as int,
            node.beta as int,
            p.depth as int,
        )
    } else {
        exists|left: int| #[trigger]
            without_moves(host, node.in_check, node.ply as int, left) && score == softened(
                left,
                p.alpha as int,
                node.beta as int,
                p.depth as int,
            )
    }
}

/// The score of a node whose moves were searched, and what it leaves behind: the
/// table is told, and the searcher learns.
pub open spec fn node_closed<H: SearchHost>(
    a: Point<H>,
    node: Node,
    p: Progress,
    b: Point<H>,
    score: i32,
) -> bool {
    let o = outcome(node, p, score);
    &&& node_scored(&a.host, node, p, score as int)
    &&& table_told(&a.host, closing_entry(a.searcher, node, p, o), &b.host)
    &&& exists|first: Searcher, second: Searcher, game: GameState, quiet: bool| #[trigger]
        lessons(a.searcher, first, second, b.searcher, game, quiet, node, p, o) && call_ensures(
            H::game,
            (&b.host,),
            &game,
        )
}

/// The score of a node after its moves, also where it was left before that.
pub open spec fn results_in<H: SearchHost>(
    a: Point<H>,
    node: Node,
    r: Result<Progress, i32>,
    b: Point<H>,
    score: i32,
) -> bool {
    match r {
        Ok(p) => node_closed(a, node, p, b, score),
        Err(v) => score == v && b == a,
    }
}

/// The score of a move was taken up: the principal variation starts with a move
/// that raises alpha, and the searcher learns.
pub open spec fn score_taken<H: SearchHost>(
    host: &H,
    searcher: Searcher,
    node: Node,
    p: Progress,
    info: MoveInfo,
    score: i32,
    counts: bool,
    after: Searcher,
) -> bool {
    exists|line: Searcher, noted: Searcher, game: GameState| #[trigger]
        taught(line, noted, after, game, node, after_score(p, info.m, score), info, counts)
            && call_ensures(H::game, (host,), &game) && if score > p.best_score && score > p.alpha {
            line.pv_put(&searcher, node.ply as int, info.m)
        } else {
            line == searcher
        }
}

/// The search of the position after a move, from `a` to `b`, may score the move
/// like this, or drop it. The first legal move is searched with the full window. A
/// later one is searched with a null window and reduced, and again where that
/// promises more.
#[verifier::opaque]
pub open spec fn child_searched<H: SearchHost>(
    a: Point<H>,
    node: Node,
    p: Progress,
    info: MoveInfo,
    extension: i32,
    b: Point<H>,
    r: Option<i32>,
) -> bool
    decreases MAX_PLY - node.ply, 0nat, 0nat, 0nat,
{
    &&& node.ply + 1 < MAX_PLY
    &&& if p.legal_moves == 1 {
        exists|v: i32| #[trigger]
            is_score(v as int) && searched(a, first_search(node, p, extension as int), b, v) && r
                == Some((-v) as i32)
    } else {
        exists|reduction: i32, depth: Option<int>|
            #![trigger
                reduced_by(&a.host, a.searcher, node, p, info, reduction),
                leaf_judged(
                    &a.host,
                    a.searcher,
                    node,
                    p,
                    info,
                    p.depth - 1 + extension - reduction,
                    depth,
                )
            ]
            reduced_by(&a.host, a.searcher, node, p, info, reduction) && leaf_judged(
                &a.host,
                a.searcher,
                node,
                p,
                info,
                p.depth - 1 + extension - reduction,
                depth,
            ) && match depth {
                None => r is None && b == a,
                Some(d) => exists|s1: Searcher, c: Point<H>, v1: i32|
                    #![trigger
                        s1.reduction_put(&a.searcher, node.ply as int, reduction),
                        c.sound(),
                        is_score(v1 as int)
                    ]
                    s1.reduction_put(&a.searcher, node.ply as int, reduction) && c.sound()
                        && is_score(v1 as int) && searched(
                        at(a.host, s1),
                        later_search(node, p, d),
                        c,
                        v1,
                    ) && if asks_again(-v1, p.alpha as int, node.beta as int, reduction as int) {
                        exists|s2: Searcher, v2: i32|
                            #![trigger
                                researched(s2, b.searcher, node, p, info, reduction),
                                is_score(v2 as int)
                            ]
                            researched(s2, b.searcher, node, p, info, reduction) && is_score(
                                v2 as int,
                            ) && searched(
                                c,
                                second_search(node, p, info, extension as int, d, -v1),
                                at(b.host, s2),
                                v2,
                            ) && r == Some((-v2) as i32)
                    } else {
                        b == c && r == Some((-v1) as i32)
                    },
            }
    }
}

/// What is learned from a second search: a quiet move that was reduced is
/// rewarded.
pub open spec fn researched(
    before: Searcher,
    after: Searcher,
    node: Node,
    p: Progress,
    info: MoveInfo,
    reduction: i32,
) -> bool {
    if reduction > 0 && !info.is_capture && info.m.promotion is None {
        after.research_learned(&before, node.ply as int, p.depth as int, info.m)
    } else {
        after == before
    }
}

/// What the stacks hold of a ply after a move there that was dropped.
pub open spec fn dropped_record(saved: PlyRecord, node: Node, info: MoveInfo) -> PlyRecord {
    PlyRecord { in_check: node.in_check, capture: info.is_capture, ..saved }
}

/// What a node has found after the search of a move that is made at `a` and taken
/// back after it; or its score, where the search was stopped.
#[verifier::opaque]
pub open spec fn child_taken<H: SearchHost>(
    a: Point<H>,
    saved: PlyRecord,
    node: Node,
    p: Progress,
    info: MoveInfo,
    undo: H::Undo,
    extension: i32,
    b: Point<H>,
    r: Result<Progress, i32>,
) -> bool
    decreases MAX_PLY - node.ply, 0nat, 1nat, 0nat,
{
    exists|c: Point<H>, found: Option<i32>|
        #![trigger c.host.unmakes(info.m, undo, &b.host), c.sound(), scores(found)]
        c.sound() && scores(found) && child_searched(a, node, p, info, extension, c, found)
            && c.host.unmakes(info.m, undo, &b.host) && match found {
            None => r == Ok::<Progress, i32>(p) && b.searcher.record_put(
                &c.searcher,
                node.ply as int,
                dropped_record(saved, node, info),
            ),
            Some(v) => exists|s2: Searcher| #[trigger]
                s2.record_put(&c.searcher, node.ply as int, saved) && if s2.hot.stopped {
                    r == Err::<Progress, i32>(p.best_score) && b.searcher == s2
                } else {
                    r == Ok::<Progress, i32>(after_score(p, info.m, v)) && score_taken(
                        &b.host,
                        s2,
                        node,
                        p,
                        info,
                        v,
                        extension < 2 || node.node_type is PV,
                        b.searcher,
                    )
                },
        }
}

/// The move at `a` is taken back for the search of the node without it, from `c`.
pub open spec fn set_aside<H: SearchHost>(
    a: Point<H>,
    ply: usize,
    m: Move,
    undo: H::Undo,
    saved: PlyRecord,
    c: Point<H>,
) -> bool {
    a.host.unmakes(m, undo, &c.host) && c.searcher.record_put(&a.searcher, ply as int, saved)
}

/// The move is made again after the search of the node without it.
pub open spec fn taken_up<H: SearchHost>(
    d: Point<H>,
    ply: usize,
    m: Move,
    undo: H::Undo,
    made: PlyRecord,
    e: Point<H>,
) -> bool {
    d.host.makes(m, undo, &e.host) && e.searcher.record_put(&d.searcher, ply as int, made)
}

/// What a node has found after a move that was made at `a`, or its score, where it
/// is left at once. Where the table move may be singular, the node is searched
/// without it first: the move is extended, or the score is high even so.
#[verifier::opaque]
pub open spec fn move_searched<H: SearchHost>(
    a: Point<H>,
    node: Node,
    bound: nat,
    before: Progress,
    info: MoveInfo,
    undo: H::Undo,
    b: Point<H>,
    r: Result<Progress, i32>,
) -> bool
    decreases MAX_PLY - node.ply, bound, 2nat, 0nat,
{
    let saved = a.searcher.record_of(node.ply as int);
    let made = Searcher::record_for(info.m, node.in_check, info.is_capture);
    exists|p: Progress, s1: Searcher, due: bool|
        #![trigger
            move_counted(before, p, info),
            singular_due(&a.host, s1, node, p, info, due)
        ]
        move_counted(before, p, info) && s1.record_put(&a.searcher, node.ply as int, made)
            && singular_due(&a.host, s1, node, p, info, due) && if !due {
            child_taken(at(a.host, s1), saved, node, p, info, undo, 0, b, r)
        } else {
            let limit = singular_limit(s1, p);
            let depth = (p.singular->0).1;
            exists|c: Point<H>, d: Point<H>, again: H::Undo, e: Point<H>, value: i32|
                #![trigger
                    set_aside(at(a.host, s1), node.ply, info.m, undo, saved, c),
                    taken_up(d, node.ply, info.m, again, made, e),
                    is_score(value as int)
                ]
                set_aside(at(a.host, s1), node.ply, info.m, undo, saved, c) && depth < bound
                    && is_score(value as int) && searched(
                    c,
                    without(node, info.m, limit, depth),
                    d,
                    value,
                ) && taken_up(d, node.ply, info.m, again, made, e) && move_tested(
                    e,
                    saved,
                    node,
                    p,
                    info,
                    again,
                    limit,
                    value,
                    b,
                    r,
                )
        }
}

/// What follows from the search without the table move, once the move is made
/// again.
#[verifier::opaque]
pub open spec fn move_tested<H: SearchHost>(
    e: Point<H>,
    saved: PlyRecord,
    node: Node,
    p: Progress,
    info: MoveInfo,
    undo: H::Undo,
    limit: i32,
    value: i32,
    b: Point<H>,
    r: Result<Progress, i32>,
) -> bool
    decreases MAX_PLY - node.ply, 0nat, 2nat, 0nat,
{
    let verdict = singular_verdict(node, p, limit, value);
    let q = singular_tested(p, verdict);
    if e.searcher.hot.stopped {
        r == Err::<Progress, i32>(0) && e.host.unmakes(info.m, undo, &b.host)
            && b.searcher.record_put(&e.searcher, node.ply as int, saved)
    } else {
        match verdict {
            Singular::Extend(x) => child_taken(e, saved, node, q, info, undo, x, b, r),
            Singular::MultiCut => r == Err::<Progress, i32>(value) && e.host.unmakes(
                info.m,
                undo,
                &b.host,
            ) && exists|s: Searcher| #[trigger]
                s.multi_cut_learned(&e.searcher, p.depth as int) && b.searcher.record_put(
                    &s,
                    node.ply as int,
                    saved,
                ),
            Singular::Plain(x) => child_taken(e, saved, node, q, info, undo, x, b, r),
        }
    }
}

/// What a node has found after a move that the game offered, or its score, where
/// it is left at once. A move may be excluded, pruned or illegal.
#[verifier::opaque]
pub open spec fn move_taken<H: SearchHost>(
    a: Stage<H, H::Generator>,
    node: Node,
    bound: nat,
    before: Progress,
    m: Move,
    b: Stage<H, H::Generator>,
    r: Result<Progress, i32>,
) -> bool
    decreases MAX_PLY - node.ply, bound, 4nat, 0nat,
{
    if node.excluded is Some && same_step(m, node.excluded->0) {
        r == Ok::<Progress, i32>(before) && b == a
    } else {
        exists|info: MoveInfo, prunes: bool|
            #![trigger
                looked_at(&a.at.host, node, m, info),
                moves_prunable(&a.at.host, node, before, prunes)
            ]
            looked_at(&a.at.host, node, m, info) && moves_prunable(
                &a.at.host,
                node,
                before,
                prunes,
            ) && exists|c: Stage<H, H::Generator>, p: Progress, skipped: bool| #[trigger]
                move_passed(a, c, node, before, p, info, prunes, skipped) && if skipped {
                    r == Ok::<Progress, i32>(p) && b == c
                } else {
                    exists|known: Option<bool>| #[trigger]
                        call_ensures(H::is_legal_fast, (&c.at.host, &m, node.in_check), known)
                            && if known == Some(false) {
                            r == Ok::<Progress, i32>(p) && b == c
                        } else {
                            b.moves == c.moves && exists|undo: H::Undo, made: H| #[trigger]
                                c.at.host.makes(m, undo, &made) && move_made(
                                    at(made, c.at.searcher),
                                    node,
                                    bound,
                                    p,
                                    info,
                                    undo,
                                    known,
                                    b.at,
                                    r,
                                )
                        }
                }
    }
}

/// What a node has found after a move, as the game stands once it is made, or
/// its score, where the node is left at once. The move may turn out illegal. In
/// any case it is taken back.
#[verifier::opaque]
pub open spec fn move_made<H: SearchHost>(
    a: Point<H>,
    node: Node,
    bound: nat,
    before: Progress,
    info: MoveInfo,
    undo: H::Undo,
    known: Option<bool>,
    b: Point<H>,
    r: Result<Progress, i32>,
) -> bool
    decreases MAX_PLY - node.ply, bound, 3nat, 0nat,
{
    exists|illegal: bool| #[trigger]
        found_illegal(&a.host, known, illegal) && if illegal {
            r == Ok::<Progress, i32>(before) && a.host.unmakes(info.m, undo, &b.host) && b.searcher
                == a.searcher
        } else {
            move_searched(a, node, bound, before, info, undo, b, r)
        }
}

/// Whether a move is pruned, where moves may be. After enough moves, the game
/// is told to leave quiet ones out before that.
pub open spec fn move_passed<H: SearchHost>(
    a: Stage<H, H::Generator>,
    c: Stage<H, H::Generator>,
    node: Node,
    before: Progress,
    after: Progress,
    info: MoveInfo,
    prunes: bool,
    skipped: bool,
) -> bool {
    &&& if prunes && before.legal_moves >= late_move_count(before.depth as int, node.improving) {
        a.at.host.drops_quiets(a.moves, c.moves, &c.at.host) && c.at.searcher == a.at.searcher
    } else {
        c == a
    }
    &&& if prunes {
        move_judged(
            a.at.searcher,
            &c.at.host,
            node,
            before,
            after,
            info,
            node.depth - 1,
            skipped,
        )
    } else {
        !skipped && after == before
    }
}

/// Where a node stands among its moves, and what it has found.
pub struct MovePoint<H, G> {
    pub stage: Stage<H, G>,
    pub found: Progress,
}

impl<H, G> MovePoint<H, G> {
    /// Whether more moves are searched.
    pub open spec fn open(self, node: Node) -> bool {
        self.stage.sound() && self.found.alpha < node.beta
    }
}

/// The next move that the game offers is taken up.
#[verifier::opaque]
pub open spec fn move_step<H: SearchHost>(
    c: MovePoint<H, H::Generator>,
    node: Node,
    bound: nat,
    b: Stage<H, H::Generator>,
    r: Result<Progress, i32>,
) -> bool
    decreases MAX_PLY - node.ply, bound, 5nat, 0nat,
{
    exists|m: Move, d: Stage<H, H::Generator>| #[trigger]
        offered(c.stage, m, d) && move_taken(d, node, bound, c.found, m, b, r)
}

/// A node that started at `start` stands at `end` after `n` moves that the game
/// offered.
#[verifier::opaque]
pub open spec fn moves_reached<H: SearchHost>(
    start: MovePoint<H, H::Generator>,
    node: Node,
    bound: nat,
    n: nat,
    end: MovePoint<H, H::Generator>,
) -> bool
    decreases MAX_PLY - node.ply, bound, 6nat, n,
{
    if n == 0 {
        end == start
    } else {
        exists|c: MovePoint<H, H::Generator>| #[trigger]
            c.open(node) && moves_reached(start, node, bound, (n - 1) as nat, c) && move_step(
                c,
                node,
                bound,
                end.stage,
                Ok(end.found),
            )
    }
}

/// The game starts to offer the moves of a node.
pub open spec fn moves_started<H: SearchHost>(
    a: Point<H>,
    node: Node,
    start: MovePoint<H, H::Generator>,
) -> bool {
    &&& a.host.starts_moves(
        a.searcher,
        node.tt.best_move,
        node.ply,
        node.depth,
        start.stage.moves,
        &start.stage.at.host,
    )
    &&& start.stage.at.searcher == a.searcher
    &&& nothing_found(node, start.found)
}

/// The search of a node's moves, from `a` to `b`: what it has found once they were
/// searched, or its score, where it was left before. Moves are searched until
/// alpha reaches beta, as long as the game offers more.
#[verifier::opaque]
pub open spec fn moves_searched<H: SearchHost>(
    a: Point<H>,
    node: Node,
    bound: nat,
    b: Point<H>,
    r: Result<Progress, i32>,
) -> bool
    decreases MAX_PLY - node.ply, bound, 7nat, 0nat,
{
    exists|start: MovePoint<H, H::Generator>, n: nat, c: MovePoint<H, H::Generator>|
        #![trigger moves_started(a, node, start), offered_at_most(n), c.stage.sound()]
        moves_started(a, node, start) && offered_at_most(n) && c.stage.sound() && moves_reached(
            start,
            node,
            bound,
            n,
            c,
        ) && match r {
            Ok(p) => p == c.found && if p.alpha >= node.beta || n == u32::MAX {
                b == c.stage.at
            } else {
                runs_out(c.stage, b)
            },
            Err(v) => c.open(node) && exists|left: Stage<H, H::Generator>| #[trigger]
                left.sound() && left.at == b && move_step(c, node, bound, left, Err(v)),
        }
}

/// No node looks at more moves than this.
pub open spec fn offered_at_most(n: nat) -> bool {
    n <= u32::MAX
}

/// The opponent is given a free move, which the stacks show.
pub open spec fn null_made<H: SearchHost>(a: Point<H>, node: Node, c: Point<H>) -> bool {
    a.host.passes(&c.host) && c.searcher.record_put(
        &a.searcher,
        node.ply as int,
        PlyRecord { made: None, ..a.searcher.record_of(node.ply as int) },
    )
}

/// The free move is taken back, and the stacks are as at `a`.
pub open spec fn null_unmade<H: SearchHost>(
    a: Point<H>,
    node: Node,
    d: Point<H>,
    e: Point<H>,
) -> bool {
    d.host.unpasses(&e.host) && e.searcher.record_put(
        &d.searcher,
        node.ply as int,
        a.searcher.record_of(node.ply as int),
    )
}

/// A free move for the opponent may give this score to a node, or none. At high
/// depth a search of the node itself has to confirm it.
#[verifier::opaque]
pub open spec fn null_answered<H: SearchHost>(
    a: Point<H>,
    node: Node,
    bound: nat,
    b: Point<H>,
    r: Option<i32>,
) -> bool
    decreases MAX_PLY - node.ply, bound, 2nat, 0nat,
{
    exists|c: Point<H>, d: Point<H>, e: Point<H>, v: i32|
        #![trigger null_made(a, node, c), null_unmade(a, node, d, e), is_score(v as int)]
        null_made(a, node, c) && node.ply + 1 < MAX_PLY && is_score(v as int) && searched(
            c,
            after_null_move(node),
            d,
            v,
        ) && null_unmade(a, node, d, e) && if e.searcher.hot.stopped {
            r == Some(0i32) && b == e
        } else {
            match null_verdict(-v, node.beta as int, node.depth as int) {
                NullVerdict::Continue => r is None && b == e,
                NullVerdict::Prune => r == Some((-v) as i32) && b == e,
                NullVerdict::Confirm => exists|own: i32| #[trigger]
                    is_score(own as int) && confirming(node).depth < bound && searched(
                        e,
                        confirming(node),
                        b,
                        own,
                    ) && r == (if own >= node.beta {
                        Some((-v) as i32)
                    } else {
                        None
                    }),
            }
        }
}

/// A node that is not in check may be pruned with this score before its moves
/// are looked at: by quiescence where its evaluation is hopeless, by an
/// evaluation far above beta, or by a free move for the opponent.
#[verifier::opaque]
pub open spec fn pruned<H: SearchHost>(
    a: Point<H>,
    node: Node,
    bound: nat,
    b: Point<H>,
    r: Option<i32>,
) -> bool
    decreases MAX_PLY - node.ply, bound, 3nat, 0nat,
{
    if razored(node) {
        r matches Some(v) && quiet_result(
            a,
            node.ply,
            node.alpha,
            node.beta,
            node.node_type,
            b,
            v,
        )
    } else if futile(node) is Some {
        r == futile(node) && b == a
    } else {
        exists|due: bool| #[trigger]
            null_due(&a.host, node, due) && if due {
                null_answered(a, node, bound, b, r)
            } else {
                r is None && b == a
            }
    }
}

/// What becomes of a capture once it was searched with a score. It is taken back.
/// The node has a score where the capture held against a raised beta, which the
/// table is told, unless it claims a decision; and where the search was stopped,
/// it counts as drawn.
pub open spec fn capture_settled<H: SearchHost>(
    d: Point<H>,
    node: Node,
    m: Move,
    undo: H::Undo,
    score: i32,
    b: Point<H>,
    r: Option<i32>,
) -> bool {
    let raised = probcut_bound(node.beta as int, node.improving) as i32;
    &&& b.searcher == d.searcher
    &&& if !d.searcher.hot.stopped && score >= raised {
        &&& exists|back: H| #[trigger]
            d.host.unmakes(m, undo, &back) && table_told(
                &back,
                held_entry(node, raised, m, score),
                &b.host,
            )
        &&& r == (if !decisive(score as int) {
            Some((score - (raised - node.beta)) as i32)
        } else {
            None
        })
    } else {
        &&& d.host.unmakes(m, undo, &b.host)
        &&& r == (if d.searcher.hot.stopped {
            Some(0i32)
        } else {
            None
        })
    }
}

/// What becomes of a capture, as the game stands once it is made. It may turn
/// out illegal. Else it has to hold against a raised beta in quiescence, and then
/// in a reduced search.
#[verifier::opaque]
pub open spec fn capture_judged<H: SearchHost>(
    a: Point<H>,
    node: Node,
    m: Move,
    undo: H::Undo,
    known: Option<bool>,
    b: Point<H>,
    r: Option<i32>,
) -> bool
    decreases MAX_PLY - node.ply, 0nat, 1nat, 0nat,
{
    let raised = probcut_bound(node.beta as int, node.improving) as i32;
    exists|illegal: bool| #[trigger]
        found_illegal(&a.host, known, illegal) && if illegal {
            r is None && a.host.unmakes(m, undo, &b.host) && b.searcher == a.searcher
        } else {
            exists|c: Point<H>, v: i32|
                #![trigger c.sound(), is_score(v as int)]
                c.sound() && is_score(v as int) && node.ply + 1 < MAX_PLY && quiet_result(
                    a,
                    (node.ply + 1) as usize,
                    (-raised) as i32,
                    (-raised + 1) as i32,
                    NodeType::Cut,
                    c,
                    v,
                ) && if -v < raised {
                    capture_settled(c, node, m, undo, (-v) as i32, b, r)
                } else {
                    exists|d: Point<H>, w: i32| #[trigger]
                        capture_settled(d, node, m, undo, (-w) as i32, b, r) && searched(
                            c,
                            against_raised(node, raised),
                            d,
                            w,
                        )
                }
        }
}

/// What becomes of a capture that the game offered.
#[verifier::opaque]
pub open spec fn capture_taken<H: SearchHost>(
    a: Point<H>,
    node: Node,
    m: Move,
    b: Point<H>,
    r: Option<i32>,
) -> bool
    decreases MAX_PLY - node.ply, 0nat, 2nat, 0nat,
{
    exists|known: Option<bool>| #[trigger]
        call_ensures(H::is_legal_fast, (&a.host, &m, node.in_check), known) && if known == Some(
            false,
        ) {
            r is None && b == a
        } else {
            exists|undo: H::Undo, made: H| #[trigger]
                a.host.makes(m, undo, &made) && capture_judged(
                    at(made, a.searcher),
                    node,
                    m,
                    undo,
                    known,
                    b,
                    r,
                )
        }
}

/// The next capture that the game offers is tried.
#[verifier::opaque]
pub open spec fn capture_step<H: SearchHost>(
    c: Stage<H, H::Generator>,
    node: Node,
    b: Stage<H, H::Generator>,
    r: Option<i32>,
) -> bool
    decreases MAX_PLY - node.ply, 0nat, 3nat, 0nat,
{
    exists|m: Move, d: Stage<H, H::Generator>| #[trigger]
        offered(c, m, d) && b.moves == d.moves && capture_taken(d.at, node, m, b.at, r)
}

/// The game offered `n` captures, none of which gave a node a score.
#[verifier::opaque]
pub open spec fn captures_missed<H: SearchHost>(
    start: Stage<H, H::Generator>,
    node: Node,
    n: nat,
    end: Stage<H, H::Generator>,
) -> bool
    decreases MAX_PLY - node.ply, 0nat, 4nat, n,
{
    if n == 0 {
        end == start
    } else {
        exists|c: Stage<H, H::Generator>| #[trigger]
            c.sound() && captures_missed(start, node, (n - 1) as nat, c) && capture_step(
                c,
                node,
                end,
                None,
            )
    }
}

/// The game starts to offer captures that may hold against a raised beta.
pub open spec fn captures_started<H: SearchHost>(
    a: Point<H>,
    node: Node,
    start: Stage<H, H::Generator>,
) -> bool {
    &&& a.host.starts_probcut(
        a.searcher,
        node.tt.best_move,
        (probcut_bound(node.beta as int, node.improving) - node.static_eval) as i32,
        start.moves,
        &start.at.host,
    )
    &&& start.at.searcher == a.searcher
}

/// Good captures may give this score to a node: the first that gives one. They
/// give none where the game has no more to offer.
#[verifier::opaque]
pub open spec fn captures_tried<H: SearchHost>(
    a: Point<H>,
    node: Node,
    b: Point<H>,
    r: Option<i32>,
) -> bool
    decreases MAX_PLY - node.ply, 0nat, 5nat, 0nat,
{
    if !probcut_tried(node) {
        r is None && b == a
    } else {
        exists|start: Stage<H, H::Generator>, n: nat, c: Stage<H, H::Generator>|
            #![trigger captures_started(a, node, start), offered_at_most(n), c.sound()]
            captures_started(a, node, start) && offered_at_most(n) && c.sound() && captures_missed(
                start,
                node,
                n,
                c,
            ) && if r is Some {
                exists|left: Stage<H, H::Generator>| #[trigger]
                    left.sound() && left.at == b && capture_step(c, node, left, r)
            } else if n == u32::MAX {
                b == c.at
            } else {
                runs_out(c, b)
            }
    }
}

/// A node that was not pruned may have this score: good captures, a score of the
/// table far above beta and the moves decide, in this order.
#[verifier::opaque]
pub open spec fn kept_searched<H: SearchHost>(
    a: Point<H>,
    node: Node,
    bound: nat,
    b: Point<H>,
    score: i32,
) -> bool
    decreases MAX_PLY - node.ply, bound, 8nat, 0nat,
{
    exists|c: Point<H>, held: Option<i32>|
        #![trigger c.sound(), scores(held)]
        c.sound() && scores(held) && captures_tried(a, node, c, held) && match held {
            Some(v) => score == v && b == c,
            None => match small_probcut_score(node.tt, node.beta as int, node.depth as int) {
                Some(v) => score == v && b == c,
                None => exists|d: Point<H>, r: Result<Progress, i32>| #[trigger]
                    results_in(d, node, r, b, score) && moves_searched(c, node, bound, d, r),
            },
        }
}

/// An open node may have this score: the table, pruning, good captures, a score of
/// the table far above beta and the moves decide, in this order.
#[verifier::opaque]
pub open spec fn open_searched<H: SearchHost>(
    a: Point<H>,
    node: Node,
    bound: nat,
    b: Point<H>,
    score: i32,
) -> bool
    decreases MAX_PLY - node.ply, bound, 9nat, 0nat,
{
    exists|cut: Option<i32>| #[trigger]
        table_cut(&a.host, a.searcher.move_rule_limit, node, cut) && match cut {
            Some(v) => score == v && b == a,
            None => exists|s1: Searcher, c: Point<H>, early: Option<i32>|
                #![trigger
                    s1.tt_pv_put(&a.searcher, node.ply as int, node.tt_pv),
                    c.sound(),
                    scores(early)
                ]
                s1.tt_pv_put(&a.searcher, node.ply as int, node.tt_pv) && c.sound() && scores(early)
                    && (if node.in_check {
                    early is None && c == at(a.host, s1)
                } else {
                    pruned(at(a.host, s1), node, bound, c, early)
                }) && match early {
                    Some(v) => score == v && b == c,
                    None => kept_searched(
                        c,
                        if node.in_check {
                            node
                        } else {
                            unpruned(node)
                        },
                        bound,
                        b,
                        score,
                    ),
                },
        }
}

/// A search from `a` may score the position like this and lead to `b`. At depth
/// zero quiescence does. At the last ply the corrected evaluation is the score.
/// Else an entry that closes the node decides, or the open node is assessed and
/// searched.
#[verifier::opaque]
pub open spec fn searched<H: SearchHost>(
    a: Point<H>,
    ctx: NegamaxContext,
    b: Point<H>,
    score: i32,
) -> bool
    decreases MAX_PLY - ctx.ply, ctx.depth as nat, 10nat, 0nat,
{
    if ctx.depth == 0 {
        quiet_result(a, ctx.ply, ctx.alpha, ctx.beta, ctx.node_type, b, score)
    } else if ctx.ply + 1 >= MAX_PLY {
        b.searcher == a.searcher && exists|raw: i32, game: GameState|
            #![trigger
                raw_eval_of(&a.host, raw, &b.host),
                call_ensures(H::game, (&b.host,), &game)
            ]
            raw_eval_of(&a.host, raw, &b.host) && call_ensures(H::game, (&b.host,), &game) && score
                == a.searcher.corrected(game, raw as int, ctx.ply as int)
    } else {
        exists|e: NodeEntry, s1: Searcher| #[trigger]
            entered(&a.host, a.searcher, ctx, e, s1) && match e {
                NodeEntry::Closed(v) => score == v && b == at(a.host, s1),
                NodeEntry::Open { alpha, beta, in_check } => exists|node: Node, c: Point<H>|
                    #[trigger]
                    assessed(
                        at(a.host, s1),
                        c,
                        ctx,
                        capped(ctx.depth),
                        alpha,
                        beta,
                        in_check,
                        node,
                    ) && open_searched(c, node, ctx.depth as nat, b, score),
            }
    }
}

/// At the last ply the corrected evaluation is the score.
pub proof fn lemma_last_ply<H: SearchHost>(
    a: Point<H>,
    ctx: NegamaxContext,
    raw: i32,
    game: GameState,
    b: Point<H>,
    score: i32,
)
    requires
        ctx.depth > 0,
        ctx.ply + 1 >= MAX_PLY,
        b.searcher == a.searcher,
        raw_eval_of(&a.host, raw, &b.host),
        call_ensures(H::game, (&b.host,), &game),
        score == a.searcher.corrected(game, raw as int, ctx.ply as int),
    ensures
        searched(a, ctx, b, score),
{
    reveal(searched);
}

pub proof fn lemma_child_taken<H: SearchHost>(
    a: Point<H>,
    saved: PlyRecord,
    node: Node,
    p: Progress,
    info: MoveInfo,
    undo: H::Undo,
    extension: i32,
    c: Point<H>,
    found: Option<i32>,
    s2: Searcher,
    b: Point<H>,
    r: Result<Progress, i32>,
)
    requires
        c.sound(),
        scores(found),
        child_searched(a, node, p, info, extension, c, found),
        c.host.unmakes(info.m, undo, &b.host),
        match found {
            None => r == Ok::<Progress, i32>(p) && b.searcher.record_put(
                &c.searcher,
                node.ply as int,
                dropped_record(saved, node, info),
            ),
            Some(v) => s2.record_put(&c.searcher, node.ply as int, saved) && if s2.hot.stopped {
                r == Err::<Progress, i32>(p.best_score) && b.searcher == s2
            } else {
                r == Ok::<Progress, i32>(after_score(p, info.m, v)) && score_taken(
                    &b.host,
                    s2,
                    node,
                    p,
                    info,
                    v,
                    extension < 2 || node.node_type is PV,
                    b.searcher,
                )
            },
        },
    ensures
        child_taken(a, saved, node, p, info, undo, extension, b, r),
{
    reveal(child_taken);
    reveal(child_searched);
}

/// A move that needs no test is searched at once.
pub proof fn lemma_plain_move<H: SearchHost>(
    a: Point<H>,
    s1: Searcher,
    node: Node,
    bound: nat,
    before: Progress,
    p: Progress,
    info: MoveInfo,
    undo: H::Undo,
    b: Point<H>,
    r: Result<Progress, i32>,
)
    requires
        move_counted(before, p, info),
        s1.record_put(
            &a.searcher,
            node.ply as int,
            Searcher::record_for(info.m, node.in_check, info.is_capture),
        ),
        singular_due(&a.host, s1, node, p, info, false),
        child_taken(
            at(a.host, s1),
            a.searcher.record_of(node.ply as int),
            node,
            p,
            info,
            undo,
            0,
            b,
            r,
        ),
    ensures
        move_searched(a, node, bound, before, info, undo, b, r),
{
    reveal(move_searched);
    reveal(child_taken);
}

/// A move that was tested is searched with what the test says.
pub proof fn lemma_child_tested<H: SearchHost>(
    e: Point<H>,
    saved: PlyRecord,
    node: Node,
    p: Progress,
    q: Progress,
    info: MoveInfo,
    undo: H::Undo,
    limit: i32,
    value: i32,
    extension: i32,
    b: Point<H>,
    r: Result<Progress, i32>,
)
    requires
        !e.searcher.hot.stopped,
        q == singular_tested(p, singular_verdict(node, p, limit, value)),
        match singular_verdict(node, p, limit, value) {
            Singular::Extend(x) => x == extension,
            Singular::MultiCut => false,
            Singular::Plain(x) => x == extension,
        },
        child_taken(e, saved, node, q, info, undo, extension, b, r),
    ensures
        move_tested(e, saved, node, p, info, undo, limit, value, b, r),
{
    reveal(move_tested);
    reveal(child_taken);
}

/// A move that was tested before it is searched.
pub proof fn lemma_tested_move<H: SearchHost>(
    a: Point<H>,
    s1: Searcher,
    node: Node,
    bound: nat,
    before: Progress,
    p: Progress,
    info: MoveInfo,
    undo: H::Undo,
    c: Point<H>,
    d: Point<H>,
    again: H::Undo,
    e: Point<H>,
    value: i32,
    b: Point<H>,
    r: Result<Progress, i32>,
)
    requires
        move_counted(before, p, info),
        s1.record_put(
            &a.searcher,
            node.ply as int,
            Searcher::record_for(info.m, node.in_check, info.is_capture),
        ),
        singular_due(&a.host, s1, node, p, info, true),
        set_aside(
            at(a.host, s1),
            node.ply,
            info.m,
            undo,
            a.searcher.record_of(node.ply as int),
            c,
        ),
        (p.singular->0).1 < bound,
        is_score(value as int),
        searched(
            c,
            without(node, info.m, singular_limit(s1, p), (p.singular->0).1),
            d,
            value,
        ),
        taken_up(
            d,
            node.ply,
            info.m,
            again,
            Searcher::record_for(info.m, node.in_check, info.is_capture),
            e,
        ),
        move_tested(
            e,
            a.searcher.record_of(node.ply as int),
            node,
            p,
            info,
            again,
            singular_limit(s1, p),
            value,
            b,
            r,
        ),
    ensures
        move_searched(a, node, bound, before, info, undo, b, r),
{
    reveal(move_searched);
    reveal(move_tested);
    reveal(searched);
}

/// What holds of the findings of a node: alpha is not below the node's, the best
/// score is not above alpha, and a raised alpha is the score of the best move.
pub open spec fn findings_agree(node: Node, p: Progress) -> bool {
    &&& node.alpha <= p.alpha
    &&& p.best_score <= p.alpha
    &&& node.alpha < p.alpha ==> p.best_score == p.alpha && p.best_move is Some
}

/// A move that is taken up lowers neither alpha nor the best score.
proof fn lemma_move_improves<H: SearchHost>(
    a: Stage<H, H::Generator>,
    node: Node,
    bound: nat,
    before: Progress,
    m: Move,
    b: Stage<H, H::Generator>,
    after: Progress,
)
    requires
        move_taken(a, node, bound, before, m, b, Ok(after)),
        findings_agree(node, before),
    ensures
        after.alpha >= before.alpha,
        after.best_score >= before.best_score,
        findings_agree(node, after),
{
    reveal(move_taken);
    reveal(move_made);
    reveal(move_searched);
    reveal(move_tested);
    reveal(child_taken);
}

/// As the moves of a node are searched, alpha and the best score never fall, and
/// a raised alpha is the score of the best move.
pub proof fn findings_only_improve<H: SearchHost>(
    start: MovePoint<H, H::Generator>,
    node: Node,
    bound: nat,
    n: nat,
    end: MovePoint<H, H::Generator>,
)
    requires
        node.alpha >= -INFINITY,
        nothing_found(node, start.found),
        moves_reached(start, node, bound, n, end),
    ensures
        findings_agree(node, end.found),
        end.found.best_score >= -INFINITY,
        n > 0 ==> exists|c: MovePoint<H, H::Generator>| #[trigger]
            c.open(node) && moves_reached(start, node, bound, (n - 1) as nat, c)
                && end.found.alpha >= c.found.alpha && end.found.best_score >= c.found.best_score,
    decreases n,
{
    reveal(moves_reached);
    reveal(move_step);
    reveal(move_taken);
    if n > 0 {
        let c = choose|c: MovePoint<H, H::Generator>| #[trigger]
            c.open(node) && moves_reached(start, node, bound, (n - 1) as nat, c) && move_step(
                c,
                node,
                bound,
                end.stage,
                Ok(end.found),
            );
        findings_only_improve(start, node, bound, (n - 1) as nat, c);
        let (m, d) = choose|m: Move, d: Stage<H, H::Generator>| #[trigger]
            offered(c.stage, m, d) && move_taken(
                d,
                node,
                bound,
                c.found,
                m,
                end.stage,
                Ok(end.found),
            );
        lemma_move_improves(d, node, bound, c.found, m, end.stage, end.found);
    }
}

} // verus!
