//! The choice among the results of threads that searched one position.
use crate::arith::{lemma_sum_step, min, sum_of};
use crate::moves::Move;
use crate::search::{is_loss, is_win, losing, winning, SearchStats, ThreadResult, INFINITY};
use rustc_hash::FxHashMap;
use vstd::prelude::*;

verus! {

/// `rustc_hash::FxBuildHasher`, the hasher of `rustc_hash::FxHashMap`.
#[verifier::external_type_specification]
#[verifier::external_body]
pub struct ExFxBuildHasher(rustc_hash::FxBuildHasher);

/// The votes that a map holds, by the squares of the move.
pub uninterp spec fn votes_in(m: FxHashMap<(i64, i64, i64, i64), i64>) -> Map<
    (i64, i64, i64, i64),
    i64,
>;

pub open spec fn no_votes() -> Map<(i64, i64, i64, i64), i64> {
    Map::empty()
}

/// `rustc_hash::FxHashMap::default`: an empty map.
#[verifier::external_body]
fn new_votes() -> (r: FxHashMap<(i64, i64, i64, i64), i64>)
    ensures
        votes_in(r) == no_votes(),
{
    FxHashMap::default()
}

/// `get` on a `rustc_hash::FxHashMap`: the value of a key, if it has one.
#[verifier::external_body]
fn get_vote(m: &FxHashMap<(i64, i64, i64, i64), i64>, key: (i64, i64, i64, i64)) -> (r: Option<i64>)
    ensures
        r == (if votes_in(*m).dom().contains(key) {
            Some(votes_in(*m)[key])
        } else {
            None
        }),
{
    m.get(&key).copied()
}

/// `insert` on a `rustc_hash::FxHashMap`: sets the value of a key.
#[verifier::external_body]
fn set_vote(m: &mut FxHashMap<(i64, i64, i64, i64), i64>, key: (i64, i64, i64, i64), value: i64)
    ensures
        votes_in(*final(m)) == votes_in(*old(m)).insert(key, value),
{
    m.insert(key, value);
}

/// The squares of a move.
pub open spec fn key_of(m: Move) -> (i64, i64, i64, i64) {
    (m.from.x, m.from.y, m.to.x, m.to.y)
}

fn move_key(m: &Move) -> (r: (i64, i64, i64, i64))
    ensures
        r == key_of(*m),
{
    (m.from.x, m.from.y, m.to.x, m.to.y)
}

/// The least score of the first `n` results.
pub open spec fn least_among(rs: Seq<ThreadResult>, n: nat) -> int
    decreases n,
{
    if n <= 1 {
        rs[0].score as int
    } else {
        min(least_among(rs, (n - 1) as nat), rs[n - 1].score as int)
    }
}

pub open spec fn least_score(rs: Seq<ThreadResult>) -> int {
    least_among(rs, rs.len())
}

/// The weight of a thread's vote: the score above the least, plus 14 so that
/// the worst thread counts too, times the depth it completed.
pub open spec fn vote_weight(r: ThreadResult, least: int) -> int {
    (r.score - least + 14) * r.completed_depth
}

pub open spec fn vote_term(key: (i64, i64, i64, i64), least: int) -> spec_fn(ThreadResult) -> int {
    |r: ThreadResult|
        if key_of(r.best_move) == key {
            vote_weight(r, least)
        } else {
            0
        }
}

/// All votes for a move.
pub open spec fn votes_for(rs: Seq<ThreadResult>, m: Move) -> int {
    sum_of(rs, vote_term(key_of(m), least_score(rs)))
}

/// A thread's own vote, where its line is long enough to be trusted.
pub open spec fn trusted_vote(rs: Seq<ThreadResult>, r: ThreadResult) -> int {
    if r.pv_length > 2 {
        vote_weight(r, least_score(rs))
    } else {
        0
    }
}

/// A score that is a proven loss; that of a thread that found nothing is not.
pub open spec fn proven_loss(score: int) -> bool {
    score != -INFINITY && losing(score)
}

/// Whether result `new` takes the place of `best`. A proven win gives way to a
/// higher score only, the fastest mate; a proven loss to a higher proven loss
/// only, the longest resistance; otherwise proven results win, then the votes for
/// the move, then the thread's own trusted vote.
pub open spec fn prefers(rs: Seq<ThreadResult>, best: ThreadResult, new: ThreadResult) -> bool {
    if winning(best.score as int) {
        new.score > best.score
    } else if proven_loss(best.score as int) {
        proven_loss(new.score as int) && new.score > best.score
    } else {
        let best_vote = votes_for(rs, best.best_move);
        let new_vote = votes_for(rs, new.best_move);
        winning(new.score as int) || proven_loss(new.score as int) || (!losing(new.score as int)
            && (new_vote > best_vote || (new_vote == best_vote && trusted_vote(rs, new)
            > trusted_vote(rs, best))))
    }
}

/// The result that is chosen from the first `n`.
pub open spec fn chosen(rs: Seq<ThreadResult>, n: nat) -> int
    decreases n,
{
    if n == 0 {
        0
    } else {
        let best = chosen(rs, (n - 1) as nat);
        if prefers(rs, rs[best], rs[n - 1]) {
            n - 1
        } else {
            best
        }
    }
}

/// The counters of a result fit the arithmetic of the vote.
pub open spec fn votable(r: ThreadResult) -> bool {
    -0x3fff_ffff <= r.score <= 0x3fff_ffff && r.completed_depth <= 0xffff
}

pub open spec fn node_term() -> spec_fn(ThreadResult) -> int {
    |r: ThreadResult| r.nodes as int
}

fn vote_weight_of(r: &ThreadResult, least: i32) -> (w: i64)
    requires
        votable(*r),
        -0x3fff_ffff <= least <= r.score,
    ensures
        w == vote_weight(*r, least as int),
        0 <= w <= 0x8000_0000_0000,
{
    let above: i64 = r.score as i64 - least as i64 + 14;
    let depth: i64 = r.completed_depth as i64;
    assert(0 <= above * depth <= 0x8000_0000_0000) by (nonlinear_arith)
        requires
            0 <= above <= 0x7fff_ffff + 14,
            0 <= depth <= 0xffff,
    ;
    above * depth
}

fn find_least_score(rs: &Vec<ThreadResult>) -> (r: i32)
    requires
        rs@.len() > 0,
        forall|i: int| 0 <= i < rs@.len() ==> votable(#[trigger] rs@[i]),
    ensures
        r == least_score(rs@),
        forall|i: int| 0 <= i < rs@.len() ==> r <= (#[trigger] rs@[i]).score,
        -0x3fff_ffff <= r,
{
    let mut least: i32 = rs[0].score;
    let mut i: usize = 1;
    while i < rs.len()
        invariant
            1 <= i <= rs@.len(),
            forall|k: int| 0 <= k < rs@.len() ==> votable(#[trigger] rs@[k]),
            least == least_among(rs@, i as nat),
            forall|k: int| 0 <= k < i ==> least <= (#[trigger] rs@[k]).score,
            -0x3fff_ffff <= least,
        decreases rs@.len() - i,
    {
        let score: i32 = rs[i].score;
        assert(votable(rs@[i as int]));
        if score < least {
            least = score;
        }
        i += 1;
    }
    least
}

/// Adds up the votes for each move.
fn count_votes(rs: &Vec<ThreadResult>, least: i32) -> (votes: FxHashMap<(i64, i64, i64, i64), i64>)
    requires
        0 < rs@.len() <= 0x8000,
        forall|i: int| 0 <= i < rs@.len() ==> votable(#[trigger] rs@[i]),
        least == least_score(rs@),
        forall|i: int| 0 <= i < rs@.len() ==> least <= (#[trigger] rs@[i]).score,
        -0x3fff_ffff <= least,
    ensures
        forall|i: int|
            0 <= i < rs@.len() ==> {
                let key = key_of((#[trigger] rs@[i]).best_move);
                votes_in(votes).dom().contains(key) && votes_in(votes)[key] == votes_for(
                    rs@,
                    rs@[i].best_move,
                )
            },
{
    let mut votes = new_votes();
    let mut i: usize = 0;
    while i < rs.len()
        invariant
            i <= rs@.len() <= 0x8000,
            forall|k: int| 0 <= k < rs@.len() ==> votable(#[trigger] rs@[k]),
            least == least_score(rs@),
            forall|k: int| 0 <= k < rs@.len() ==> least <= (#[trigger] rs@[k]).score,
            -0x3fff_ffff <= least,
            forall|key: (i64, i64, i64, i64)|
                #![trigger votes_in(votes).dom().contains(key)]
                {
                    let sum = sum_of(rs@.take(i as int), vote_term(key, least as int));
                    &&& votes_in(votes).dom().contains(key) ==> votes_in(votes)[key] == sum
                    &&& !votes_in(votes).dom().contains(key) ==> sum == 0
                    &&& 0 <= sum <= i * 0x8000_0000_0000
                },
            forall|k: int|
                0 <= k < i ==> votes_in(votes).dom().contains(
                    key_of((#[trigger] rs@[k]).best_move),
                ),
        decreases rs@.len() - i,
    {
        let ghost before = votes_in(votes);
        let r = rs[i];
        assert(rs@[i as int] == r);
        let key = move_key(&r.best_move);
        let weight: i64 = vote_weight_of(&r, least);
        let had: i64 = match get_vote(&votes, key) {
            Some(v) => v,
            None => 0,
        };
        assert(before.dom().contains(key) || !before.dom().contains(key));
        set_vote(&mut votes, key, had + weight);
        proof {
            assert forall|k: (i64, i64, i64, i64)|
                #![trigger votes_in(votes).dom().contains(k)]
                {
                    let sum = sum_of(rs@.take(i + 1), vote_term(k, least as int));
                    &&& votes_in(votes).dom().contains(k) ==> votes_in(votes)[k] == sum
                    &&& !votes_in(votes).dom().contains(k) ==> sum == 0
                    &&& 0 <= sum <= (i + 1) * 0x8000_0000_0000
                } by {
                lemma_sum_step(rs@, i as int, vote_term(k, least as int));
                let had_sum = sum_of(rs@.take(i as int), vote_term(k, least as int));
                assert(before.dom().contains(k) ==> before[k] == had_sum);
                assert(!before.dom().contains(k) ==> had_sum == 0);
                assert(0 <= had_sum <= i * 0x8000_0000_0000);
                assert(vote_term(k, least as int)(rs@[i as int]) == (if k == key {
                    weight as int
                } else {
                    0
                }));
            }
        }
        i += 1;
    }
    assert(rs@.take(i as int) =~= rs@);
    votes
}

fn is_preferred(
    rs: &Vec<ThreadResult>,
    votes: &FxHashMap<(i64, i64, i64, i64), i64>,
    least: i32,
    best: usize,
    new: usize,
) -> (r: bool)
    requires
        best < rs@.len(),
        new < rs@.len(),
        forall|i: int| 0 <= i < rs@.len() ==> votable(#[trigger] rs@[i]),
        least == least_score(rs@),
        forall|i: int| 0 <= i < rs@.len() ==> least <= (#[trigger] rs@[i]).score,
        -0x3fff_ffff <= least,
        forall|i: int|
            0 <= i < rs@.len() ==> {
                let key = key_of((#[trigger] rs@[i]).best_move);
                votes_in(*votes).dom().contains(key) && votes_in(*votes)[key] == votes_for(
                    rs@,
                    rs@[i].best_move,
                )
            },
    ensures
        r == prefers(rs@, rs@[best as int], rs@[new as int]),
{
    let b = rs[best];
    let n = rs[new];
    assert(rs@[best as int] == b && rs@[new as int] == n);
    if is_win(b.score) {
        return n.score > b.score;
    }
    let new_in_proven_loss = n.score != -INFINITY && is_loss(n.score);
    if b.score != -INFINITY && is_loss(b.score) {
        return new_in_proven_loss && n.score > b.score;
    }
    let best_vote: i64 = match get_vote(votes, move_key(&b.best_move)) {
        Some(v) => v,
        None => 0,
    };
    let new_vote: i64 = match get_vote(votes, move_key(&n.best_move)) {
        Some(v) => v,
        None => 0,
    };
    let best_own: i64 = if b.pv_length > 2 {
        vote_weight_of(&b, least)
    } else {
        0
    };
    let new_own: i64 = if n.pv_length > 2 {
        vote_weight_of(&n, least)
    } else {
        0
    };
    is_win(n.score) || new_in_proven_loss || (!is_loss(n.score) && (new_vote > best_vote || (
    new_vote == best_vote && new_own > best_own)))
}

/// Chooses the best of the threads' results by vote. The statistics hold all
/// threads' nodes and the given state of the table.
pub fn select_thread_result(
    results: &Vec<ThreadResult>,
    tt_capacity: usize,
    tt_used: usize,
    tt_fill_permille: u32,
) -> (r: Option<(Move, i32, SearchStats)>)
    requires
        results@.len() <= 0x8000,
        forall|i: int| 0 <= i < results@.len() ==> votable(#[trigger] results@[i]),
        sum_of(results@, node_term()) <= u64::MAX,
    ensures
        r == (if results@.len() == 0 {
            None
        } else {
            let best = results@[chosen(results@, results@.len())];
            Some(
                (
                    best.best_move,
                    best.score,
                    SearchStats {
                        nodes: sum_of(results@, node_term()) as u64,
                        tt_capacity,
                        tt_used,
                        tt_fill_permille,
                    },
                ),
            )
        }),
{
    if results.len() == 0 {
        return None;
    }
    let least: i32 = find_least_score(results);
    let votes = count_votes(results, least);
    let mut best: usize = 0;
    let mut nodes: u64 = 0;
    let mut i: usize = 0;
    while i < results.len()
        invariant
            i <= results@.len(),
            best < results@.len(),
            best == chosen(results@, i as nat),
            forall|k: int| 0 <= k < results@.len() ==> votable(#[trigger] results@[k]),
            least == least_score(results@),
            forall|k: int| 0 <= k < results@.len() ==> least <= (#[trigger] results@[k]).score,
            -0x3fff_ffff <= least,
            forall|k: int|
                0 <= k < results@.len() ==> {
                    let key = key_of((#[trigger] results@[k]).best_move);
                    votes_in(votes).dom().contains(key) && votes_in(votes)[key] == votes_for(
                        results@,
                        results@[k].best_move,
                    )
                },
            nodes == sum_of(results@.take(i as int), node_term()),
            sum_of(results@, node_term()) <= u64::MAX,
        decreases results@.len() - i,
    {
        proof {
            lemma_sum_step(results@, i as int, node_term());
            lemma_node_prefix(results@, i + 1);
        }
        if is_preferred(results, &votes, least, best, i) {
            best = i;
        }
        nodes += results[i].nodes;
        i += 1;
    }
    assert(results@.take(i as int) =~= results@);
    let chosen_result = results[best];
    Some(
        (
            chosen_result.best_move,
            chosen_result.score,
            SearchStats { nodes, tt_capacity, tt_used, tt_fill_permille },
        ),
    )
}

proof fn lemma_node_prefix(rs: Seq<ThreadResult>, i: int)
    requires
        0 <= i <= rs.len(),
    ensures
        sum_of(rs.take(i), node_term()) <= sum_of(rs, node_term()),
    decreases rs.len() - i,
{
    if i < rs.len() {
        lemma_sum_step(rs, i, node_term());
        lemma_node_prefix(rs, i + 1);
    } else {
        assert(rs.take(i) =~= rs);
    }
}

/// Every thread that completed a depth has a positive vote, the one with the
/// worst score too.
pub proof fn every_thread_has_a_vote(rs: Seq<ThreadResult>, i: int)
    requires
        0 <= i < rs.len(),
        rs[i].completed_depth >= 1,
    ensures
        vote_weight(rs[i], least_score(rs)) >= 14,
{
    lemma_least(rs, rs.len(), i);
    let above = rs[i].score - least_score(rs) + 14;
    let depth = rs[i].completed_depth as int;
    assert(above * depth >= 14) by (nonlinear_arith)
        requires
            above >= 14,
            depth >= 1,
    ;
}

proof fn lemma_least(rs: Seq<ThreadResult>, n: nat, i: int)
    requires
        0 <= i < n <= rs.len(),
    ensures
        least_among(rs, n) <= rs[i].score,
    decreases n,
{
    if n > 1 && i < n - 1 {
        lemma_least(rs, (n - 1) as nat, i);
    }
}

/// The chosen result is one of the results.
pub proof fn chosen_is_a_result(rs: Seq<ThreadResult>, n: nat)
    requires
        n <= rs.len(),
        rs.len() > 0,
    ensures
        0 <= chosen(rs, n) < rs.len(),
    decreases n,
{
    if n > 0 {
        chosen_is_a_result(rs, (n - 1) as nat);
    }
}

/// Once a proven win is the choice, the choice stays a proven win that is no
/// worse.
pub proof fn proven_win_is_kept(rs: Seq<ThreadResult>, n: nat, k: nat)
    requires
        n <= k <= rs.len(),
        rs.len() > 0,
        winning(rs[chosen(rs, n)].score as int),
    ensures
        rs[chosen(rs, k)].score >= rs[chosen(rs, n)].score,
    decreases k - n,
{
    if n < k {
        proven_win_is_kept(rs, n, (k - 1) as nat);
    }
}

/// Among proven losses the longest resistance is chosen, the highest score.
pub proof fn losing_threads_resist_longest(rs: Seq<ThreadResult>, n: nat)
    requires
        1 <= n <= rs.len(),
        forall|i: int| 0 <= i < rs.len() ==> proven_loss((#[trigger] rs[i]).score as int),
    ensures
        0 <= chosen(rs, n) < n,
        forall|i: int| 0 <= i < n ==> (#[trigger] rs[i]).score <= rs[chosen(rs, n)].score,
    decreases n,
{
    assert(proven_loss(rs[n - 1].score as int));
    if n > 1 {
        losing_threads_resist_longest(rs, (n - 1) as nat);
        assert(proven_loss(rs[chosen(rs, (n - 1) as nat)].score as int));
    } else {
        assert(chosen(rs, 0) == 0);
    }
}

} // verus!
