//! What a search is told and what it tells: orders of moves, limits, lines and texts.
use crate::board::{PieceType, PlayerColor};
use crate::moves::{Move, MoveList};
use crate::search::entry::{search_starts, SearchTerms};
use crate::search::host::SearchHost;
use crate::search::pv::{extends, leads, played, table_path};
use crate::search::sorting::{captures_ordered, descending, sort_moves_root};
use crate::search::steps::Point;
use crate::search::text::{nodes_per_second, score_text};
use crate::search::{ProbeContext, Searcher, StoreContext};
use crate::text::{decimal, hundredths, signed_decimal};
use vstd::prelude::*;

verus! {

/// Captures come in the order of their ranks: of two, the one that ranks higher is the
/// earlier.
pub proof fn promising_captures_come_first<H: SearchHost>(
    host: &H,
    moves: Seq<Move>,
    ordered: Seq<Move>,
    i: int,
    j: int,
    a: i64,
    b: i64,
)
    requires
        captures_ordered(host, moves, ordered),
        0 <= i < j < ordered.len(),
        forall|rank: i64| #[trigger]
            call_ensures(H::capture_rank, (host, &ordered[i]), rank) ==> rank == a,
        forall|rank: i64| #[trigger]
            call_ensures(H::capture_rank, (host, &ordered[j]), rank) ==> rank == b,
    ensures
        a >= b,
{
    let ranks = choose|ranks: Seq<i64>| #[trigger]
        descending(ranks) && ranks.len() == ordered.len() && forall|k: int|
            0 <= k < ordered.len() ==> call_ensures(
                H::capture_rank,
                (host, &#[trigger] ordered[k]),
                ranks[k],
            );
    assert(call_ensures(H::capture_rank, (host, &ordered[i]), ranks[i]));
    assert(call_ensures(H::capture_rank, (host, &ordered[j]), ranks[j]));
}

/// So do the moves of the root.
pub proof fn promising_root_moves_come_first<H: SearchHost>(
    searcher: &Searcher,
    host: &H,
    moves: &MoveList,
    tt_move: &Option<Move>,
    ordered: MoveList,
    i: int,
    j: int,
    a: i64,
    b: i64,
)
    requires
        call_ensures(sort_moves_root::<H>, (searcher, host, moves, tt_move), ordered),
        0 <= i < j < ordered@.len(),
        forall|rank: i64| #[trigger]
            call_ensures(H::root_rank, (host, searcher, &ordered@[i], tt_move), rank) ==> rank
                == a,
        forall|rank: i64| #[trigger]
            call_ensures(H::root_rank, (host, searcher, &ordered@[j], tt_move), rank) ==> rank
                == b,
    ensures
        a >= b,
{
    let ranks = choose|ranks: Seq<i64>| #[trigger]
        descending(ranks) && ranks.len() == ordered@.len() && forall|k: int|
            0 <= k < ordered@.len() ==> call_ensures(
                H::root_rank,
                (host, searcher, &#[trigger] ordered@[k], tt_move),
                ranks[k],
            );
    assert(call_ensures(H::root_rank, (host, searcher, &ordered@[i], tt_move), ranks[i]));
    assert(call_ensures(H::root_rank, (host, searcher, &ordered@[j], tt_move), ranks[j]));
}

/// A search starts with its limits set, nothing counted and nothing found, and may not be
/// stopped for time before its first depth is complete.
pub proof fn searches_start_fresh<H: SearchHost>(
    host: H,
    before: Option<Searcher>,
    terms: SearchTerms,
    a: Point<H>,
)
    requires
        search_starts(host, before, terms, a),
    ensures
        a.searcher.hot.nodes == 0,
        a.searcher.hot.qnodes == 0,
        !a.searcher.hot.stopped,
        a.searcher.hot.min_depth_required == 1,
        a.searcher.hot.time_limit_ms == terms.max_time_ms,
        a.searcher.hot.maximum_time_ms == terms.max_time_ms,
        a.searcher.hot.optimum_time_ms == terms.opt_time_ms,
        a.searcher.hot.is_soft_limit == terms.is_soft_limit,
        a.searcher.best_move_root is None,
        a.searcher.prev_score == 0,
        a.searcher.completed_depth == 0,
        a.searcher.silent == terms.silent,
        a.searcher.thread_id == terms.thread_id,
        forall|i: int|
            0 <= i < a.searcher.killers@.len() ==> (#[trigger] a.searcher.killers@[i])@[0] is None,
        forall|i: int, j: int|
            0 <= i < 4 && 0 <= j < 4096 ==> #[trigger] a.searcher.low_ply_history@[i]@[j] == 97,
        // What was learned is kept.
        before matches Some(s) ==> a.searcher.history == s.history && a.searcher.capture_history
            == s.capture_history && a.searcher.pawn_corrhist == s.pawn_corrhist,
{
}

/// The table is asked and told what the search knows.
pub proof fn tables_are_asked_and_told_as_meant(ask: ProbeContext, tell: StoreContext)
    ensures
        ask.asked().hash == ask.hash,
        ask.asked().alpha == ask.alpha,
        ask.asked().beta == ask.beta,
        ask.asked().depth == ask.depth,
        ask.asked().ply == ask.ply,
        ask.asked().rule50_count == ask.rule50_count,
        ask.asked().rule_limit == ask.rule_limit,
        tell.told().hash == tell.hash,
        tell.told().depth == tell.depth,
        tell.told().flag == tell.flag,
        tell.told().score == tell.score,
        tell.told().static_eval == tell.static_eval,
        tell.told().is_pv == tell.is_pv,
        tell.told().best_move == tell.best_move,
        tell.told().ply == tell.ply,
{
}

/// A line that is shown starts with the moves of the principal variation, and has no more
/// moves than asked for.
pub proof fn shown_lines_start_with_the_variation<H: SearchHost>(
    s: Searcher,
    host: &H,
    depth: int,
    pv: Seq<Move>,
    n: int,
)
    requires
        depth >= 0,
        s.line_shown(host, depth, pv),
        s.pv_table@.len() == 4096,
        s.pv_length@[0] <= 64,
        0 <= n <= depth,
        n <= s.pv_length@[0],
        forall|i: int| 0 <= i < n ==> (#[trigger] s.pv_table@[i]) is Some,
    ensures
        n <= pv.len() <= depth,
        forall|i: int| 0 <= i < n ==> Some(#[trigger] pv[i]) == s.pv_table@[i],
{
    let own = choose|own: Seq<Move>| #[trigger]
        leads(own, s.root_line(depth)) && extends(pv, own, depth);
    let line = s.root_line(depth);
    if own.len() < n {
        assert(line[own.len() as int] == s.pv_table@[own.len() as int]);
    }
    assert forall|i: int| 0 <= i < n implies Some(#[trigger] pv[i]) == s.pv_table@[i] by {
        assert(pv.take(own.len() as int)[i] == own[i]);
        assert(line[i] == Some(own[i]));
        assert(line[i] == s.pv_table@[i]);
    }
}

/// The moves that the table adds to a line are legal ones, each made after the one before.
pub proof fn table_lines_are_legal<H: SearchHost>(
    path: Seq<H>,
    hashes: Seq<u64>,
    moves: Seq<Move>,
    i: int,
)
    requires
        table_path(path, hashes, moves),
        0 <= i < moves.len(),
    ensures
        exists|undo: H::Undo| #[trigger] path[i].makes(moves[i], undo, &path[i + 1]),
        call_ensures(H::is_move_illegal, (&path[i + 1],), false),
        call_ensures(H::probe_move, (&path[i], hashes[i]), Some(moves[i])),
        forall|j: int| 0 <= j < i ==> hashes[j] != hashes[i],
{
    assert(played(path, moves, i));
}

/// What digits mean.
pub open spec fn reading(s: Seq<char>) -> int
    decreases s.len(),
{
    if s.len() == 0 {
        0
    } else {
        10 * reading(s.drop_last()) + (s.last() as u32 - 48)
    }
}

/// A number is written so that it reads as itself, in digits only, and without needless
/// zeros.
pub proof fn numbers_read_as_they_are(n: nat)
    ensures
        reading(decimal(n)) == n,
        decimal(n).len() > 0,
        n > 0 ==> decimal(n)[0] != '0',
        forall|i: int|
            0 <= i < decimal(n).len() ==> 48 <= (#[trigger] decimal(n)[i]) as u32 <= 57,
    decreases n,
{
    let s = decimal(n);
    if n < 10 {
        assert(s.drop_last() =~= Seq::<char>::empty());
        assert(reading(s.drop_last()) == 0);
    } else {
        numbers_read_as_they_are(n / 10);
        assert(s.drop_last() =~= decimal(n / 10));
        assert forall|i: int| 0 <= i < s.len() implies 48 <= (#[trigger] s[i]) as u32 <= 57 by {
            if i < s.len() - 1 {
                assert(s[i] == decimal(n / 10)[i]);
            }
        }
    }
}

/// A negative number has a minus sign before its size.
pub proof fn signs_are_written(n: int)
    ensures
        n >= 0 ==> reading(signed_decimal(n)) == n && signed_decimal(n)[0] != '-',
        n < 0 ==> signed_decimal(n)[0] == '-' && reading(
            signed_decimal(n).subrange(1, signed_decimal(n).len() as int),
        ) == -n,
{
    reveal_strlit("-");
    if n >= 0 {
        numbers_read_as_they_are(n as nat);
    } else {
        let d = decimal((-n) as nat);
        numbers_read_as_they_are((-n) as nat);
        assert(("-"@ + d).subrange(1, 1 + d.len() as int) =~= d);
    }
}

/// Hundredths are written with a point before the last two digits.
pub proof fn hundredths_have_two_decimals(n: int)
    requires
        n >= 0,
    ensures
        ({
            let s = hundredths(n);
            let k = s.len();
            &&& k >= 4
            &&& s[k - 3] == '.'
            &&& reading(s.take(k - 3)) == n / 100
            &&& reading(s.subrange(k - 2, k as int)) == n % 100
        }),
{
    reveal_strlit(".");
    let a = decimal((n / 100) as nat);
    let b = decimal((n / 10 % 10) as nat);
    let c = decimal((n % 10) as nat);
    numbers_read_as_they_are((n / 100) as nat);
    numbers_read_as_they_are((n / 10 % 10) as nat);
    numbers_read_as_they_are((n % 10) as nat);
    let s = hundredths(n);
    assert(b.len() == 1 && c.len() == 1);
    assert(s =~= a + "."@ + b + c);
    let k = s.len();
    assert(s.take(k - 3) =~= a);
    let t = s.subrange(k - 2, k as int);
    assert(t.drop_last() =~= b);
    assert(t.last() == c.last());
    assert(c.drop_last() =~= Seq::<char>::empty());
    assert(reading(c.drop_last()) == 0);
    assert(n % 100 == 10 * (n / 10 % 10) + n % 10);
}

/// A mate is told by the moves to it, half the plies rounded up, with a minus sign for the
/// side that is mated; any other score in hundredths of a pawn.
pub proof fn mates_are_told_in_moves(plies: int, score: int)
    requires
        0 <= plies < 100_000,
        -800_000 <= score <= 800_000,
    ensures
        score_text(900_000 - plies) == "mate "@ + decimal(((plies + 1) / 2) as nat),
        score_text(-900_000 + plies) == "mate -"@ + decimal(((plies + 1) / 2) as nat),
        score_text(score) == "cp "@ + signed_decimal(score),
{
}

/// The nodes in the time that was taken make the nodes per second.
pub proof fn speed_is_nodes_by_time(nodes: int, time_ms: int)
    requires
        nodes >= 0,
        time_ms >= 0,
    ensures
        time_ms == 0 ==> nodes_per_second(nodes, time_ms) == 0,
        time_ms == 1000 ==> nodes_per_second(nodes, time_ms) == nodes,
        time_ms > 0 ==> nodes_per_second(nodes, time_ms) * time_ms <= nodes * 1000 < (
        nodes_per_second(nodes, time_ms) + 1) * time_ms,
{
    if time_ms > 0 {
        let q = nodes * 1000 / time_ms;
        assert(q * time_ms <= nodes * 1000 < (q + 1) * time_ms) by (nonlinear_arith)
            requires
                q == nodes * 1000 / time_ms,
                time_ms > 0,
        ;
    }
}

/// Every kind of piece has a number of its own, below 32.
pub proof fn kinds_have_numbers_of_their_own(a: PieceType, b: PieceType)
    ensures
        0 <= a.index_spec() < 32,
        a.index_spec() == b.index_spec() ==> a == b,
{
}

/// White and Black are each other's opponents.
pub proof fn opponents_are_each_others()
    ensures
        PlayerColor::White.opponent_spec() is Black,
        PlayerColor::Black.opponent_spec() is White,
{
}

} // verus!
