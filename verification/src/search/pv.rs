//! Principal variations for display, extended by the table's moves.
use crate::arith::min;
use crate::board::{occupied, Piece};
use crate::game::GameState;
use crate::moves::Move;
use crate::search::host::SearchHost;
use crate::search::searcher::Searcher;
use crate::search::text::{format_pv_line, line_text};

use vstd::prelude::*;

verus! {

/// Whether `pv` is what a line holds before its first gap.
pub open spec fn leads(pv: Seq<Move>, line: Seq<Option<Move>>) -> bool {
    &&& pv.len() <= line.len()
    &&& forall|i: int| 0 <= i < pv.len() ==> #[trigger] line[i] == Some(pv[i])
    &&& pv.len() < line.len() ==> line[pv.len() as int] is None
}

/// Whether a list starts with `head` and has at most `limit` moves.
pub open spec fn extends(pv: Seq<Move>, head: Seq<Move>, limit: int) -> bool {
    head.len() <= pv.len() <= limit && pv.take(head.len() as int) == head
}

fn is_seen(seen: &Vec<u64>, hash: u64) -> (r: bool)
    ensures
        r == seen@.contains(hash),
{
    let mut i: usize = 0;
    while i < seen.len()
        invariant
            i <= seen@.len(),
            forall|k: int| 0 <= k < i ==> #[trigger] seen@[k] != hash,
        decreases seen@.len() - i,
    {
        if seen[i] == hash {
            return true;
        }
        i += 1;
    }
    false
}

/// Whether the piece of a move stands on its square.
pub open spec fn stands(game: GameState, m: Move, r: bool) -> bool {
    if r {
        game.board@.contains((m.from.x, m.from.y, m.piece))
    } else {
        !occupied(game.board@, m.from.x as int, m.from.y as int) || exists|q: Piece| #[trigger]
            game.board@.contains((m.from.x, m.from.y, q)) && q != m.piece
    }
}

/// Whether the piece of a move stands on its square, as the game tells.
pub open spec fn fits_in<H: SearchHost>(host: &H, m: Move, r: bool) -> bool {
    exists|game: GameState| #[trigger]
        call_ensures(H::game, (host,), &game) && stands(game, m, r)
}

fn fits<H: SearchHost>(host: &H, m: &Move) -> (r: bool)
    ensures
        fits_in(host, *m, r),
{
    let game = host.game();
    match game.board.get_piece(m.from.x, m.from.y) {
        Some(p) => p == m.piece,
        None => false,
    }
}

/// The hash of the position.
pub open spec fn hashed<H: SearchHost>(host: &H, hash: u64) -> bool {
    exists|game: GameState| #[trigger] call_ensures(H::game, (host,), &game) && game.hash == hash
}

/// The table has this move for the position, and its piece stands there.
pub open spec fn next_in_table<H: SearchHost>(host: &H, hash: u64, m: Move) -> bool {
    hashed(host, hash) && call_ensures(H::probe_move, (host, hash), Some(m)) && fits_in(
        host,
        m,
        true,
    )
}

/// The table leads no further, after positions with the hashes `seen`: the
/// position comes again, or the table has no move for it, or none that fits.
pub open spec fn table_ends<H: SearchHost>(host: &H, seen: Seq<u64>) -> bool {
    exists|hash: u64| #[trigger]
        hashed(host, hash) && (seen.contains(hash) || call_ensures(
            H::probe_move,
            (host, hash),
            None,
        ) || exists|m: Move| #[trigger]
            call_ensures(H::probe_move, (host, hash), Some(m)) && fits_in(host, m, false))
}

/// A move is made from one position of a path to the next.
pub open spec fn played<H: SearchHost>(path: Seq<H>, moves: Seq<Move>, i: int) -> bool {
    exists|undo: H::Undo| #[trigger] path[i].makes(moves[i], undo, &path[i + 1])
}

/// A path of positions on which each of the moves is the table's, and after it
/// no royal piece is left in check. No position before the last comes again.
pub open spec fn table_path<H: SearchHost>(
    path: Seq<H>,
    hashes: Seq<u64>,
    moves: Seq<Move>,
) -> bool {
    &&& path.len() == moves.len() + 1
    &&& hashes.len() == moves.len()
    &&& hashes.no_duplicates()
    &&& forall|i: int|
        0 <= i < moves.len() ==> #[trigger] played(path, moves, i) && next_in_table(
            &path[i],
            hashes[i],
            moves[i],
        ) && call_ensures(H::is_move_illegal, (&path[i + 1],), false)
}

/// The table's move turns out illegal once it is made.
pub open spec fn table_errs<H: SearchHost>(host: H) -> bool {
    exists|hash: u64, m: Move, undo: H::Undo, made: H|
        #![trigger next_in_table(&host, hash, m), host.makes(m, undo, &made)]
        next_in_table(&host, hash, m) && host.makes(m, undo, &made) && call_ensures(
            H::is_move_illegal,
            (&made,),
            true,
        )
}

/// A line that starts with `head` and goes on with the table's moves from the
/// position of `host`, until it has `limit` moves, the table leads no further or
/// its move is illegal.
#[verifier::opaque]
pub open spec fn table_followed<H: SearchHost>(
    host: H,
    head: Seq<Move>,
    limit: int,
    pv: Seq<Move>,
) -> bool {
    exists|path: Seq<H>, hashes: Seq<u64>, moves: Seq<Move>| #[trigger]
        table_path(path, hashes, moves) && path[0] == host && pv == head + moves && (pv.len()
            == limit || table_ends(&path.last(), hashes) || table_errs(path.last()))
}

/// Makes the table's move, unless there is none that fits, the position was seen
/// before or the move turns out illegal.
fn take_table_move<H: SearchHost>(host: &mut H, seen: &mut Vec<u64>) -> (r: Option<Move>)
    ensures
        match r {
            Some(m) => exists|hash: u64, undo: H::Undo|
                #![trigger
                    next_in_table(&*old(host), hash, m),
                    old(host).makes(m, undo, &*final(host))
                ]
                next_in_table(&*old(host), hash, m) && !old(seen)@.contains(hash) && final(seen)@
                    == old(seen)@.push(hash) && old(host).makes(m, undo, &*final(host))
                    && call_ensures(H::is_move_illegal, (&*final(host),), false),
            None => table_ends(&*old(host), old(seen)@) || table_errs(*old(host)),
        },
{
    let ghost h0 = *host;
    let hash: u64 = host.game().hash;
    assert(hashed(&h0, hash));
    if is_seen(seen, hash) {
        return None;
    }
    seen.push(hash);
    let m = match host.probe_move(hash) {
        Some(m) => m,
        None => {
            return None;
        },
    };
    if !fits(host, &m) {
        return None;
    }
    assert(next_in_table(&h0, hash, m));
    let _undo = host.make_move(&m);
    assert(h0.makes(m, _undo, &*host));
    if host.is_move_illegal() {
        return None;
    }
    Some(m)
}

/// Follows the table's moves from the position of `host`, until there is none
/// that fits, a position comes again or the line is full.
fn follow_table<H: SearchHost>(host: &mut H, pv: &mut Vec<Move>, limit: usize)
    requires
        old(pv)@.len() <= limit,
    ensures
        extends(final(pv)@, old(pv)@, limit as int),
        table_followed(*old(host), old(pv)@, limit as int, final(pv)@),
{
    let mut seen: Vec<u64> = Vec::new();
    let ghost mut path: Seq<H> = seq![*host];
    let ghost mut hashes: Seq<u64> = Seq::empty();
    let ghost mut moves: Seq<Move> = Seq::empty();
    assert(pv@.take(pv@.len() as int) =~= pv@);
    assert(pv@ + moves =~= pv@);
    while pv.len() < limit
        invariant_except_break
            *host == path.last(),
            seen@ == hashes,
        invariant
            extends(pv@, old(pv)@, limit as int),
            pv@ == old(pv)@ + moves,
            table_path(path, hashes, moves),
            path[0] == *old(host),
        ensures
            pv@.len() == limit || table_ends(&path.last(), hashes) || table_errs(path.last()),
        decreases limit - pv@.len(),
    {
        let ghost h0 = *host;
        let m = match take_table_move(host, &mut seen) {
            Some(m) => m,
            None => {
                break;
            },
        };
        let ghost before = pv@;
        pv.push(m);
        proof {
            let k = moves.len() as int;
            let p0 = path;
            let m0 = moves;
            let hash = seen@.last();
            assert(next_in_table(&h0, hash, m) && !hashes.contains(hash));
            hashes = seen@;
            path = p0.push(*host);
            moves = m0.push(m);
            assert forall|i: int| 0 <= i < moves.len() implies #[trigger] played(path, moves, i)
                && next_in_table(&path[i], hashes[i], moves[i]) && call_ensures(
                H::is_move_illegal,
                (&path[i + 1],),
                false,
            ) by {
                if i < k {
                    assert(played(p0, m0, i));
                    let undo = choose|undo: H::Undo| #[trigger]
                        p0[i].makes(m0[i], undo, &p0[i + 1]);
                    assert(path[i].makes(moves[i], undo, &path[i + 1]));
                } else {
                    let undo = choose|undo: H::Undo| #[trigger] h0.makes(m, undo, &*host);
                    assert(path[i].makes(moves[i], undo, &path[i + 1]));
                }
            }
            assert(pv@ =~= old(pv)@ + moves);
            assert(pv@.take(old(pv)@.len() as int) =~= before.take(old(pv)@.len() as int));
        }
    }
    proof {
        reveal(table_followed);
    }
}

/// A game in the position of `host`, and the positions after the first moves of a
/// line, as long as they fit.
pub open spec fn replays<H: SearchHost>(host: &H, own: Seq<Move>, path: Seq<H>) -> bool {
    &&& 1 <= path.len() <= own.len() + 1
    &&& call_ensures(H::fork, (host,), path[0])
    &&& forall|i: int|
        0 <= i < path.len() - 1 ==> #[trigger] played(path, own, i) && fits_in(
            &path[i],
            own[i],
            true,
        )
}

/// A line extended by the table's moves to at most `depth` moves, unless one of its
/// own does not fit.
#[verifier::opaque]
pub open spec fn line_extended<H: SearchHost>(
    host: &H,
    own: Seq<Move>,
    depth: int,
    pv: Seq<Move>,
) -> bool {
    if own.len() >= depth {
        pv == own
    } else {
        exists|path: Seq<H>| #[trigger]
            replays(host, own, path) && if path.len() == own.len() + 1 {
                table_followed(path.last(), own, depth, pv)
            } else {
                pv == own && fits_in(&path.last(), own[path.len() - 1], false)
            }
    }
}

impl Searcher {
    /// The line that the table's moves give, of at most `max_len` moves.
    pub fn extract_pv_from_tt<H: SearchHost>(&self, host: &H, max_len: usize) -> (r: Vec<Move>)
        ensures
            r@.len() <= max_len,
            // It is followed from another game in the position.
            exists|start: H| #[trigger]
                call_ensures(H::fork, (host,), start) && table_followed(
                    start,
                    Seq::empty(),
                    max_len as int,
                    r@,
                ),
    {
        let mut pv: Vec<Move> = Vec::new();
        let mut game = host.fork();
        assert(pv@ =~= Seq::<Move>::empty());
        follow_table(&mut game, &mut pv, max_len);
        pv
    }

    /// The principal variation of the root up to its first gap, extended by the
    /// table's moves to at most `depth` moves.
    pub open spec fn line_shown<H: SearchHost>(&self, host: &H, depth: int, pv: Seq<Move>) -> bool {
        exists|own: Seq<Move>| #[trigger]
            leads(own, self.root_line(depth)) && extends(pv, own, depth) && line_extended(
                host,
                own,
                depth,
                pv,
            )
    }

    /// The principal variation of the root, at most `depth` moves of it.
    pub open spec fn root_line(&self, depth: int) -> Seq<Option<Move>> {
        self.pv_table@.take(min(self.pv_length@[0] as int, depth))
    }

    /// The principal variation of the root, extended by the table's moves to
    /// at most `depth` moves.
    pub fn extract_pv_only<H: SearchHost>(&self, host: &H, depth: usize) -> (r: Vec<Move>)
        requires
            self.valid(),
        ensures
            self.line_shown(host, depth as int, r@),
    {
        proof {
            self.lemma_valid();
        }
        let mut pv: Vec<Move> = Vec::new();
        let len: usize = if self.pv_length[0] < depth {
            self.pv_length[0]
        } else {
            depth
        };
        let ghost line = self.root_line(depth as int);
        let mut i: usize = 0;
        while i < len
            invariant
                self.wf(),
                i <= len,
                len <= self.pv_length@[0],
                len == line.len(),
                line == self.root_line(depth as int),
                pv@.len() == i,
                forall|k: int| 0 <= k < i ==> #[trigger] line[k] == Some(pv@[k]),
            ensures
                leads(pv@, line),
            decreases len - i,
        {
            assert(line[i as int] == self.pv_table@[i as int]);
            match self.pv_table[i] {
                Some(m) => {
                    pv.push(m);
                },
                None => {
                    break;
                },
            }
            i += 1;
        }
        assert(pv@.take(pv@.len() as int) =~= pv@);
        let ghost own = pv@;
        proof {
            reveal(line_extended);
        }
        if pv.len() < depth {
            let mut game = host.fork();
            let ghost mut path: Seq<H> = seq![game];
            let mut k: usize = 0;
            while k < pv.len()
                invariant
                    k <= pv@.len(),
                    pv@ == own,
                    own.len() < depth,
                    leads(own, self.root_line(depth as int)),
                    extends(own, own, depth as int),
                    path.len() == k + 1,
                    path.last() == game,
                    replays(host, own, path),
                decreases pv@.len() - k,
            {
                if !fits(&game, &pv[k]) {
                    proof {
                        reveal(line_extended);
                        assert(line_extended(host, own, depth as int, own));
                    }
                    return pv;
                }
                let ghost g0 = game;
                let m = pv[k];
                let _undo = game.make_move(&m);
                proof {
                    let p0 = path;
                    path = p0.push(game);
                    assert forall|i: int| 0 <= i < path.len() - 1 implies #[trigger] played(
                        path,
                        own,
                        i,
                    ) && fits_in(&path[i], own[i], true) by {
                        if i < k {
                            assert(played(p0, own, i));
                            let undo = choose|undo: H::Undo| #[trigger]
                                p0[i].makes(own[i], undo, &p0[i + 1]);
                            assert(path[i].makes(own[i], undo, &path[i + 1]));
                        } else {
                            assert(g0.makes(m, _undo, &game));
                            assert(path[i].makes(own[i], _undo, &path[i + 1]));
                        }
                    }
                }
                k += 1;
            }
            follow_table(&mut game, &mut pv, depth);
            proof {
                reveal(line_extended);
                assert(line_extended(host, own, depth as int, pv@));
            }
        }
        pv
    }

    /// The principal variation as text.
    pub fn format_pv<H: SearchHost>(&self, host: &H, depth: usize, codes: &Vec<String>) -> (r:
        String)
        requires
            self.valid(),
            codes@.len() >= 32,
        ensures
            exists|pv: Seq<Move>| #[trigger]
                self.line_shown(host, depth as int, pv) && r@ == line_text(pv, codes@),
    {
        let pv = self.extract_pv_only(host, depth);
        format_pv_line(&pv, codes)
    }
}

} // verus!
