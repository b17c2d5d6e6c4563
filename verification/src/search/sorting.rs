//! Moves in the order of their ranks.
use crate::moves::{Move, MoveList};
use crate::search::host::SearchHost;
use crate::search::searcher::Searcher;
use vstd::prelude::*;

verus! {

pub open spec fn descending(ranks: Seq<i64>) -> bool {
    forall|i: int, j: int| 0 <= i < j < ranks.len() ==> ranks[i] >= ranks[j]
}

/// Inserts a move behind those that rank at least as high.
fn insert_ranked(moves: &mut Vec<Move>, ranks: &mut Vec<i64>, m: Move, rank: i64) -> (k: usize)
    requires
        old(moves)@.len() == old(ranks)@.len(),
        descending(old(ranks)@),
    ensures
        k <= old(moves)@.len(),
        final(moves)@ == old(moves)@.insert(k as int, m),
        final(ranks)@ == old(ranks)@.insert(k as int, rank),
        forall|i: int| 0 <= i < k ==> #[trigger] old(ranks)@[i] >= rank,
        forall|i: int| k <= i < old(ranks)@.len() ==> #[trigger] old(ranks)@[i] < rank,
        descending(final(ranks)@),
        final(moves)@.to_multiset() == old(moves)@.to_multiset().insert(m),
{
    let mut k: usize = 0;
    while k < ranks.len() && ranks[k] >= rank
        invariant
            k <= ranks@.len(),
            forall|i: int| 0 <= i < k ==> #[trigger] ranks@[i] >= rank,
        decreases ranks@.len() - k,
    {
        k += 1;
    }
    moves.insert(k, m);
    ranks.insert(k, rank);
    proof {
        let ms = moves@;
        assert(ms.remove(k as int) =~= old(moves)@);
        broadcast use vstd::seq_lib::group_to_multiset_ensures;

        assert(ms[k as int] == m);
        assert(ms.to_multiset().count(m) > 0);
        assert(ms.to_multiset() =~= old(moves)@.to_multiset().insert(m));
    }
    k
}

/// The same captures in an order that their ranks allow: the greater, the
/// earlier.
pub open spec fn captures_ordered<H: SearchHost>(
    host: &H,
    moves: Seq<Move>,
    ordered: Seq<Move>,
) -> bool {
    &&& ordered.to_multiset() == moves.to_multiset()
    &&& exists|ranks: Seq<i64>| #[trigger]
        descending(ranks) && ranks.len() == ordered.len() && forall|i: int|
            0 <= i < ordered.len() ==> call_ensures(
                H::capture_rank,
                (host, &#[trigger] ordered[i]),
                ranks[i],
            )
}

/// The captures of a quiescence node, the most promising first.
pub fn sort_captures<H: SearchHost>(host: &H, moves: &MoveList) -> (r: MoveList)
    ensures
        captures_ordered(host, moves@, r@),
{
    let mut sorted: Vec<Move> = Vec::new();
    let mut ranks: Vec<i64> = Vec::new();
    let mut i: usize = 0;
    assert(moves@.take(0) =~= sorted@);
    while i < moves.len()
        invariant
            i <= moves@.len(),
            sorted@.len() == ranks@.len(),
            sorted@.to_multiset() == moves@.take(i as int).to_multiset(),
            descending(ranks@),
            forall|k: int|
                0 <= k < sorted@.len() ==> call_ensures(
                    H::capture_rank,
                    (host, &#[trigger] sorted@[k]),
                    ranks@[k],
                ),
        decreases moves@.len() - i,
    {
        let m = moves[i];
        let rank: i64 = host.capture_rank(&m);
        insert_ranked(&mut sorted, &mut ranks, m, rank);
        proof {
            broadcast use vstd::seq_lib::group_to_multiset_ensures;

            assert(moves@.take(i + 1) =~= moves@.take(i as int).push(m));
        }
        i += 1;
    }
    assert(moves@.take(i as int) =~= moves@);
    sorted
}

/// The moves at the root, the most promising first.
pub fn sort_moves_root<H: SearchHost>(
    searcher: &Searcher,
    host: &H,
    moves: &MoveList,
    tt_move: &Option<Move>,
) -> (r: MoveList)
    ensures
        r@.to_multiset() == moves@.to_multiset(),
        exists|ranks: Seq<i64>| #[trigger]
            descending(ranks) && ranks.len() == r@.len() && forall|i: int|
                0 <= i < r@.len() ==> call_ensures(
                    H::root_rank,
                    (host, searcher, &#[trigger] r@[i], tt_move),
                    ranks[i],
                ),
{
    let mut sorted: Vec<Move> = Vec::new();
    let mut ranks: Vec<i64> = Vec::new();
    let mut i: usize = 0;
    assert(moves@.take(0) =~= sorted@);
    while i < moves.len()
        invariant
            i <= moves@.len(),
            sorted@.len() == ranks@.len(),
            sorted@.to_multiset() == moves@.take(i as int).to_multiset(),
            descending(ranks@),
            forall|k: int|
                0 <= k < sorted@.len() ==> call_ensures(
                    H::root_rank,
                    (host, searcher, &#[trigger] sorted@[k], tt_move),
                    ranks@[k],
                ),
        decreases moves@.len() - i,
    {
        let m = moves[i];
        let rank: i64 = host.root_rank(searcher, &m, tt_move);
        insert_ranked(&mut sorted, &mut ranks, m, rank);
        proof {
            broadcast use vstd::seq_lib::group_to_multiset_ensures;

            assert(moves@.take(i + 1) =~= moves@.take(i as int).push(m));
        }
        i += 1;
    }
    assert(moves@.take(i as int) =~= moves@);
    sorted
}

} // verus!
