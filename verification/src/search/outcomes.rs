//! What every search result owes to the rules of the game: drawn and lost
//! positions, captures that answer a capture, and the sign of a reply.
use crate::board::Piece;
use crate::game::GameState;
use crate::moves::Move;
use crate::search::decisions::is_score;
use crate::search::host::SearchHost;
use crate::search::quiescence::{
    last_target, quiet_after, quiet_made, quiet_reached, quiet_result, quiet_step, skip_answered,
    QuietPoint,
};
use crate::search::results::searched;
use crate::search::steps::{at, Point};
use crate::search::{NegamaxContext, NodeType, MAX_PLY};
use vstd::prelude::*;

verus! {

/// The game calls the position drawn, whether or not the side to move is in check.
pub open spec fn called_drawn<H: SearchHost>(host: &H, ply: usize) -> bool {
    forall|in_check: bool, answer: bool| #[trigger]
        call_ensures(H::is_draw, (host, ply, in_check), answer) ==> answer
}

/// The game calls the position not drawn.
pub open spec fn called_undrawn<H: SearchHost>(host: &H, ply: usize) -> bool {
    forall|in_check: bool, answer: bool| #[trigger]
        call_ensures(H::is_draw, (host, ply, in_check), answer) ==> !answer
}

/// The game says that a royal piece of the side to move was captured.
pub open spec fn called_lost<H: SearchHost>(host: &H) -> bool {
    forall|answer: bool| #[trigger]
        call_ensures(H::has_lost_by_royal_capture, (host,), answer) ==> answer
}

/// No move at hand repeats a position.
pub open spec fn repeats_nothing<H: SearchHost>(host: &H, ply: usize) -> bool {
    forall|answer: bool| #[trigger]
        call_ensures(H::upcoming_repetition, (host, ply), answer) ==> !answer
}

/// Below the root a position that the game calls drawn scores within one of zero,
/// unless the search was stopped: neither side wins it.
pub proof fn drawn_positions_score_as_draws<H: SearchHost>(
    a: Point<H>,
    ctx: NegamaxContext,
    b: Point<H>,
    score: i32,
)
    requires
        0 < ctx.ply,
        ctx.ply + 1 < MAX_PLY,
        ctx.depth > 0,
        called_drawn(&a.host, ctx.ply),
        searched(a, ctx, b, score),
        !b.searcher.hot.stopped,
    ensures
        -1 <= score <= 1,
{
    reveal(searched);
}

/// The same holds in quiescence, at every ply.
pub proof fn drawn_positions_are_quiet_draws<H: SearchHost>(
    a: Point<H>,
    ply: usize,
    alpha: i32,
    beta: i32,
    node_type: NodeType,
    b: Point<H>,
    score: i32,
)
    requires
        ply + 1 < MAX_PLY,
        called_drawn(&a.host, ply),
        quiet_result(a, ply, alpha, beta, node_type, b, score),
    ensures
        -1 <= score <= 1,
{
}

/// A side whose royal piece was captured has lost, the later the better: below the
/// root the score is that of being mated at the node.
pub proof fn captured_royals_lose<H: SearchHost>(
    a: Point<H>,
    ctx: NegamaxContext,
    b: Point<H>,
    score: i32,
)
    requires
        0 < ctx.ply,
        ctx.ply + 1 < MAX_PLY,
        ctx.depth > 0,
        repeats_nothing(&a.host, ctx.ply),
        called_undrawn(&a.host, ctx.ply),
        called_lost(&a.host),
        searched(a, ctx, b, score),
        !b.searcher.hot.stopped,
    ensures
        score == -900_000 + ctx.ply,
{
    reveal(searched);
}

/// The same holds in quiescence, where no stored score closes the node first.
pub proof fn captured_royals_lose_quietly<H: SearchHost>(
    a: Point<H>,
    ply: usize,
    alpha: i32,
    beta: i32,
    b: Point<H>,
    score: i32,
)
    requires
        ply + 1 < MAX_PLY,
        repeats_nothing(&a.host, ply),
        called_undrawn(&a.host, ply),
        called_lost(&a.host),
        quiet_result(a, ply, alpha, beta, NodeType::PV, b, score),
        !b.searcher.hot.stopped,
    ensures
        score == -900_000 + ply,
{
}

/// Where a move at hand repeats a position and a draw is more than was asked for, a node
/// below the root scores as a draw.
pub proof fn repetitions_save_a_draw<H: SearchHost>(
    a: Point<H>,
    ctx: NegamaxContext,
    b: Point<H>,
    score: i32,
)
    requires
        0 < ctx.ply,
        ctx.ply + 1 < MAX_PLY,
        ctx.depth > 0,
        ctx.alpha < 0,
        ctx.beta <= -1,
        forall|answer: bool| #[trigger]
            call_ensures(H::upcoming_repetition, (&a.host, ctx.ply), answer) ==> answer,
        searched(a, ctx, b, score),
    ensures
        -1 <= score <= 1,
{
    reveal(searched);
}

/// A quiescence node that stands at `c` makes a move and searches the position after
/// it, with the window turned round; the reply is the score of that.
pub open spec fn replied_quietly<H: SearchHost>(
    c: QuietPoint<H>,
    m: Move,
    ply: usize,
    beta: i32,
    node_type: NodeType,
    made: H,
    undo: H::Undo,
    d: Point<H>,
    reply: i32,
) -> bool {
    &&& c.at.host.makes(m, undo, &made)
    &&& quiet_result(
        at(made, c.at.searcher),
        (ply + 1) as usize,
        (-beta) as i32,
        (-c.found.alpha) as i32,
        node_type,
        d,
        reply,
    )
}

/// The game never finds a move illegal.
pub open spec fn surely_legal<H: SearchHost>(m: Move) -> bool {
    &&& forall|h: &H, in_check: bool, answer: Option<bool>| #[trigger]
        call_ensures(H::is_legal_fast, (h, &m, in_check), answer) ==> answer != Some(false)
    &&& forall|h: H, undo: H::Undo, made: H, answer: bool|
        #![trigger h.makes(m, undo, &made), call_ensures(H::is_move_illegal, (&made,), answer)]
        h.makes(m, undo, &made) && call_ensures(H::is_move_illegal, (&made,), answer) ==> !answer
}

/// On the square that a move goes to there is a piece, and it belongs to a side.
pub open spec fn takes_only_pieces(game: GameState, m: Move) -> bool {
    &&& exists|i: int|
        0 <= i < game.board@.len() && (#[trigger] game.board@[i]).0 == m.to.x && game.board@[i].1
            == m.to.y
    &&& forall|q: Piece| #[trigger]
        game.board@.contains((m.to.x, m.to.y, q)) ==> !(q.piece_type is Void) && !(
        q.piece_type is Obstacle)
}

/// A move of a quiescence node that must not be left out: all of them in check; one
/// that goes to the square of the opponent's last move; and a capture that does not
/// lose in exchanges, and with what it wins and a margin reaches alpha.
pub open spec fn must_look<H: SearchHost>(
    c: QuietPoint<H>,
    in_check: bool,
    last: Option<Move>,
    m: Move,
) -> bool {
    ||| in_check
    ||| last matches Some(l) && l.to == m.to
    ||| {
        &&& forall|game: GameState| #[trigger]
            call_ensures(H::game, (&c.at.host,), &game) ==> takes_only_pieces(game, m)
        &&& forall|see: i32| #[trigger]
            call_ensures(H::static_exchange_eval, (&c.at.host, &m), see) ==> see >= 0
                && c.found.best_value + see + 200 >= c.found.alpha
    }
}

/// A quiescence node makes and searches a legal move that must not be left out, and
/// finds a value that is no worse than what the move leads to.
pub proof fn due_moves_are_looked_at<H: SearchHost>(
    c: QuietPoint<H>,
    ply: usize,
    beta: i32,
    node_type: NodeType,
    in_check: bool,
    last: Option<Move>,
    m: Move,
    end: QuietPoint<H>,
)
    requires
        quiet_step(
            c.at,
            ply,
            beta,
            node_type,
            in_check,
            match last {
                Some(l) => Some(l.to),
                None => None,
            },
            m,
            c.found,
            end.at,
            end.found,
            false,
        ),
        c.found.legal_moves < usize::MAX,
        surely_legal::<H>(m),
        must_look(c, in_check, last, m),
    ensures
        exists|made: H, undo: H::Undo, d: Point<H>, reply: i32| #[trigger]
            replied_quietly(c, m, ply, beta, node_type, made, undo, d, reply)
                && end.found.best_value >= -reply && d.host.unmakes(m, undo, &end.at.host),
        end.found.legal_moves == c.found.legal_moves + 1,
        end.found.best_value >= c.found.best_value,
{
    let target = match last {
        Some(l) => Some(l.to),
        None => None,
    };
    let skipped = choose|skipped: bool| #[trigger]
        skip_answered(&c.at.host, m, in_check, target, c.found, skipped) && if skipped {
            end.found == c.found && end.at == c.at
        } else {
            exists|known: Option<bool>| #[trigger]
                call_ensures(H::is_legal_fast, (&c.at.host, &m, in_check), known) && if known
                    == Some(false) {
                    end.found == c.found && end.at == c.at
                } else {
                    exists|undo: H::Undo, made: H| #[trigger]
                        c.at.host.makes(m, undo, &made) && quiet_made(
                            at(made, c.at.searcher),
                            ply,
                            beta,
                            node_type,
                            m,
                            undo,
                            known,
                            c.found,
                            end.at,
                            end.found,
                            false,
                        )
                }
        };
    assert(!skipped);
    let known = choose|known: Option<bool>| #[trigger]
        call_ensures(H::is_legal_fast, (&c.at.host, &m, in_check), known) && if known == Some(
            false,
        ) {
            end.found == c.found && end.at == c.at
        } else {
            exists|undo: H::Undo, made: H| #[trigger]
                c.at.host.makes(m, undo, &made) && quiet_made(
                    at(made, c.at.searcher),
                    ply,
                    beta,
                    node_type,
                    m,
                    undo,
                    known,
                    c.found,
                    end.at,
                    end.found,
                    false,
                )
        };
    let (undo, made) = choose|undo: H::Undo, made: H| #[trigger]
        c.at.host.makes(m, undo, &made) && quiet_made(
            at(made, c.at.searcher),
            ply,
            beta,
            node_type,
            m,
            undo,
            known,
            c.found,
            end.at,
            end.found,
            false,
        );
    let (last_state, reply) = choose|last_state: H, reply: i32|
        #![trigger last_state.unmakes(m, undo, &end.at.host), is_score(reply as int)]
        is_score(reply as int) && last_state.unmakes(m, undo, &end.at.host) && ply + 1 < MAX_PLY
            && quiet_result(
            at(made, c.at.searcher),
            (ply + 1) as usize,
            (-beta) as i32,
            (-c.found.alpha) as i32,
            node_type,
            at(last_state, end.at.searcher),
            reply,
        ) && end.found == quiet_after(c.found, m, -reply);
    assert(replied_quietly(
        c,
        m,
        ply,
        beta,
        node_type,
        made,
        undo,
        at(last_state, end.at.searcher),
        reply,
    ));
}

/// Recaptures are always looked at in quiescence: of the moves that a node has
/// looked at, each legal one to the square that the opponent's last move went to
/// was made and searched, and what the node has found is no worse than it.
pub proof fn recaptures_are_looked_at<H: SearchHost>(
    start: QuietPoint<H>,
    ply: usize,
    beta: i32,
    node_type: NodeType,
    in_check: bool,
    moves: Seq<Move>,
    n: nat,
    end: QuietPoint<H>,
    k: int,
)
    requires
        0 < ply,
        quiet_reached(start, ply, beta, node_type, in_check, moves, n, end),
        0 <= k < n <= moves.len() <= usize::MAX,
        start.found.legal_moves == 0,
        in_check || (start.at.searcher.move_history@[ply - 1] matches Some(last) && last.to
            == moves[k].to),
        surely_legal::<H>(moves[k]),
    ensures
        exists|c: QuietPoint<H>, made: H, undo: H::Undo, d: Point<H>, reply: i32| #[trigger]
            replied_quietly(c, moves[k], ply, beta, node_type, made, undo, d, reply)
                && quiet_reached(start, ply, beta, node_type, in_check, moves, k as nat, c)
                && end.found.best_value >= -reply,
        end.found.legal_moves <= n,
    decreases n,
{
    let c = choose|c: QuietPoint<H>| #[trigger]
        c.open(beta) && quiet_reached(
            start,
            ply,
            beta,
            node_type,
            in_check,
            moves,
            (n - 1) as nat,
            c,
        ) && quiet_step(
            c.at,
            ply,
            beta,
            node_type,
            in_check,
            last_target(start.at.searcher, ply as int),
            moves[n - 1],
            c.found,
            end.at,
            end.found,
            false,
        );
    lemma_few_legal(start, ply, beta, node_type, in_check, moves, (n - 1) as nat, c);
    if k < n - 1 {
        recaptures_are_looked_at(
            start,
            ply,
            beta,
            node_type,
            in_check,
            moves,
            (n - 1) as nat,
            c,
            k,
        );
        let (e, made, undo, d, reply) = choose|
            e: QuietPoint<H>,
            made: H,
            undo: H::Undo,
            d: Point<H>,
            reply: i32,
        | #[trigger]
            replied_quietly(e, moves[k], ply, beta, node_type, made, undo, d, reply)
                && quiet_reached(start, ply, beta, node_type, in_check, moves, k as nat, e)
                && c.found.best_value >= -reply;
        assert(end.found.best_value >= c.found.best_value);
        assert(replied_quietly(e, moves[k], ply, beta, node_type, made, undo, d, reply));
    } else {
        due_moves_are_looked_at(
            c,
            ply,
            beta,
            node_type,
            in_check,
            start.at.searcher.move_history@[ply - 1],
            moves[k],
            end,
        );
        let (made, undo, d, reply) = choose|made: H, undo: H::Undo, d: Point<H>, reply: i32|
            #[trigger]
            replied_quietly(c, moves[k], ply, beta, node_type, made, undo, d, reply)
                && end.found.best_value >= -reply && d.host.unmakes(
                moves[k],
                undo,
                &end.at.host,
            );
        assert(replied_quietly(c, moves[k], ply, beta, node_type, made, undo, d, reply));
    }
}

/// A quiescence node counts no more legal moves than it has looked at.
proof fn lemma_few_legal<H: SearchHost>(
    start: QuietPoint<H>,
    ply: usize,
    beta: i32,
    node_type: NodeType,
    in_check: bool,
    moves: Seq<Move>,
    n: nat,
    end: QuietPoint<H>,
)
    requires
        quiet_reached(start, ply, beta, node_type, in_check, moves, n, end),
        start.found.legal_moves == 0,
        n <= usize::MAX,
    ensures
        end.found.legal_moves <= n,
    decreases n,
{
    if n > 0 {
        let c = choose|c: QuietPoint<H>| #[trigger]
            c.open(beta) && quiet_reached(
                start,
                ply,
                beta,
                node_type,
                in_check,
                moves,
                (n - 1) as nat,
                c,
            ) && quiet_step(
                c.at,
                ply,
                beta,
                node_type,
                in_check,
                last_target(start.at.searcher, ply as int),
                moves[n - 1],
                c.found,
                end.at,
                end.found,
                false,
            );
        lemma_few_legal(start, ply, beta, node_type, in_check, moves, (n - 1) as nat, c);
    }
}

} // verus!
