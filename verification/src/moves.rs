//! Moves, and the sorted per-line coordinate lists that answer questions about
//! ranks, files and diagonals without visiting every piece.
use crate::board::{occupied, Board, Coordinate, Piece, PieceType};
use std::collections::HashMap;
use vstd::prelude::*;

verus! {

broadcast use vstd::std_specs::hash::group_hash_axioms;

/// A move of one piece from one square to another.
#[derive(Clone, Copy, PartialEq, Eq, Structural, Debug)]
pub struct Move {
    pub from: Coordinate,
    pub to: Coordinate,
    pub piece: Piece,
    pub promotion: Option<PieceType>,
}

impl Move {
    pub fn new(from: Coordinate, to: Coordinate, piece: Piece) -> (r: Move)
        ensures
            r == (Move { from, to, piece, promotion: None }),
    {
        Move { from, to, piece, promotion: None }
    }
}

/// Moves in the order in which they are tried.
pub type MoveList = Vec<Move>;

/// The coordinates of the pieces on one line, in ascending order.
pub struct CoordLine {
    pub coords: Vec<i64>,
}

/// The pieces by rank (key `y`), file (key `x`), rising diagonal (key `x - y`)
/// and falling diagonal (key `x + y`). A rank and a diagonal list `x`
/// coordinates, a file lists `y` coordinates.
pub struct SpatialIndices {
    pub rows: HashMap<i64, CoordLine>,
    pub cols: HashMap<i64, CoordLine>,
    pub diag1: HashMap<i64, CoordLine>,
    pub diag2: HashMap<i64, CoordLine>,
}

pub open spec fn ascending(s: Seq<i64>) -> bool {
    forall|i: int, j: int| 0 <= i < j < s.len() ==> s[i] < s[j]
}

pub open spec fn lines_ascending(m: Map<i64, CoordLine>) -> bool {
    forall|k: i64| #[trigger] m.dom().contains(k) ==> ascending(m[k].coords@)
}

/// Whether line `k` lists coordinate `c`.
pub open spec fn line_has(m: Map<i64, CoordLine>, k: int, c: int) -> bool {
    exists|kk: i64, i: int|
        #![trigger m.dom().contains(kk), m[kk].coords@[i]]
        kk == k && m.dom().contains(kk) && 0 <= i < m[kk].coords@.len() && m[kk].coords@[i] == c
}

/// Whether `a` lies strictly between `b` and `c`.
pub open spec fn strictly_between(a: int, b: int, c: int) -> bool {
    (b < a && a < c) || (c < a && a < b)
}

/// Whether line `k` lists a coordinate strictly between `a` and `b`.
pub open spec fn line_blocked(m: Map<i64, CoordLine>, k: int, a: int, b: int) -> bool {
    exists|c: int| #[trigger] line_has(m, k, c) && strictly_between(c, a, b)
}

impl SpatialIndices {
    /// Every line is in ascending order.
    pub open spec fn wf(&self) -> bool {
        &&& lines_ascending(self.rows@)
        &&& lines_ascending(self.cols@)
        &&& lines_ascending(self.diag1@)
        &&& lines_ascending(self.diag2@)
    }

    /// The lines list exactly the squares that are occupied in `s`.
    pub open spec fn lists(&self, s: Seq<(i64, i64, Piece)>) -> bool {
        forall|x: int, y: int|
            #![trigger occupied(s, x, y)]
            #![trigger line_has(self.rows@, y, x)]
            #![trigger line_has(self.cols@, x, y)]
            #![trigger line_has(self.diag1@, x - y, x)]
            #![trigger line_has(self.diag2@, x + y, x)]
            {
                &&& occupied(s, x, y) <==> line_has(self.rows@, y, x)
                &&& occupied(s, x, y) <==> line_has(self.cols@, x, y)
                &&& occupied(s, x, y) <==> line_has(self.diag1@, x - y, x)
                &&& occupied(s, x, y) <==> line_has(self.diag2@, x + y, x)
            }
    }

    /// The lines of a board.
    pub fn from_board(board: &Board) -> (r: SpatialIndices)
        requires
            forall|i: int|
                0 <= i < board@.len() ==> {
                    &&& i64::MIN <= (#[trigger] board@[i]).0 - board@[i].1 <= i64::MAX
                    &&& i64::MIN <= board@[i].0 + board@[i].1 <= i64::MAX
                },
        ensures
            r.wf(),
            r.lists(board@),
    {
        let mut r = SpatialIndices {
            rows: HashMap::new(),
            cols: HashMap::new(),
            diag1: HashMap::new(),
            diag2: HashMap::new(),
        };
        let mut i: usize = 0;
        while i < board.pieces.len()
            invariant
                i <= board@.len(),
                r.wf(),
                r.lists(board@.take(i as int)),
                forall|i: int|
                    0 <= i < board@.len() ==> {
                        &&& i64::MIN <= (#[trigger] board@[i]).0 - board@[i].1 <= i64::MAX
                        &&& i64::MIN <= board@[i].0 + board@[i].1 <= i64::MAX
                    },
            decreases board@.len() - i,
        {
            let x: i64 = board.pieces[i].0;
            let y: i64 = board.pieces[i].1;
            let ghost before = r;
            add_coord(&mut r.rows, y, x);
            add_coord(&mut r.cols, x, y);
            add_coord(&mut r.diag1, x - y, x);
            add_coord(&mut r.diag2, x + y, x);
            proof {
                let s = board@.take(i as int);
                let t = board@.take(i + 1);
                assert forall|u: int, v: int|
                    #![trigger occupied(t, u, v)]
                    occupied(t, u, v) <==> (occupied(s, u, v) || (u == x && v == y)) by {
                    if occupied(t, u, v) {
                        let k = choose|k: int| 0 <= k < t.len() && (#[trigger] t[k]).0 == u && t[k].1 == v;
                        if k < i {
                            assert(s[k] == t[k]);
                        }
                    }
                    if occupied(s, u, v) {
                        let k = choose|k: int| 0 <= k < s.len() && (#[trigger] s[k]).0 == u && s[k].1 == v;
                        assert(t[k] == s[k]);
                    }
                    if u == x && v == y {
                        assert(t[i as int] == board@[i as int]);
                    }
                }
                assert forall|u: int, v: int|
                    #![trigger occupied(t, u, v)]
                    #![trigger line_has(r.rows@, v, u)]
                    #![trigger line_has(r.cols@, u, v)]
                    #![trigger line_has(r.diag1@, u - v, u)]
                    #![trigger line_has(r.diag2@, u + v, u)]
                    {
                        &&& occupied(t, u, v) <==> line_has(r.rows@, v, u)
                        &&& occupied(t, u, v) <==> line_has(r.cols@, u, v)
                        &&& occupied(t, u, v) <==> line_has(r.diag1@, u - v, u)
                        &&& occupied(t, u, v) <==> line_has(r.diag2@, u + v, u)
                    } by {
                    assert(occupied(s, u, v) <==> line_has(before.rows@, v, u));
                }
            }
            i += 1;
        }
        assert(board@.take(i as int) =~= board@);
        r
    }
}

/// The number of coordinates of an ascending list that are not above `limit`.
pub fn first_above(coords: &Vec<i64>, limit: i64) -> (r: usize)
    requires
        ascending(coords@),
    ensures
        r <= coords@.len(),
        forall|i: int| 0 <= i < r ==> coords@[i] <= limit,
        forall|i: int| r <= i < coords@.len() ==> coords@[i] > limit,
{
    let mut lo: usize = 0;
    let mut hi: usize = coords.len();
    while lo < hi
        invariant
            lo <= hi <= coords@.len(),
            ascending(coords@),
            forall|i: int| 0 <= i < lo ==> coords@[i] <= limit,
            forall|i: int| hi <= i < coords@.len() ==> coords@[i] > limit,
        decreases hi - lo,
    {
        let mid: usize = lo + (hi - lo) / 2;
        if coords[mid] <= limit {
            lo = mid + 1;
        } else {
            hi = mid;
        }
    }
    lo
}

/// Lists coordinate `c` on line `key`.
fn add_coord(m: &mut HashMap<i64, CoordLine>, key: i64, c: i64)
    requires
        lines_ascending(old(m)@),
    ensures
        lines_ascending(final(m)@),
        forall|k: int, d: int|
            #[trigger] line_has(final(m)@, k, d) <==> (line_has(old(m)@, k, d) || (k == key && d
                == c)),
{
    let ghost before = m@;
    let mut line = match m.remove(&key) {
        Some(l) => l,
        None => CoordLine { coords: Vec::new() },
    };
    let ghost had = line.coords@;
    let at: usize = first_above(&line.coords, c);
    if at == 0 || line.coords[at - 1] != c {
        line.coords.insert(at, c);
        assert(line.coords@[at as int] == c);
    } else {
        assert(line.coords@[at - 1] == c);
    }
    let ghost now = line.coords@;
    m.insert(key, line);
    proof {
        assert forall|k: int, d: int|
            #[trigger] line_has(m@, k, d) <==> (line_has(before, k, d) || (k == key && d == c)) by {
            if line_has(m@, k, d) {
                let (kk, i) = choose|kk: i64, i: int|
                    #![trigger m@.dom().contains(kk), m@[kk].coords@[i]]
                    kk == k && m@.dom().contains(kk) && 0 <= i < m@[kk].coords@.len()
                        && m@[kk].coords@[i] == d;
                if kk == key && d != c {
                    let j = if now.len() == had.len() || i < at {
                        i
                    } else {
                        i - 1
                    };
                    assert(had[j] == d);
                    assert(before.dom().contains(kk) && before[kk].coords@[j] == d);
                } else if kk != key {
                    assert(before.dom().contains(kk) && before[kk].coords@[i] == d);
                }
            }
            if line_has(before, k, d) {
                let (kk, i) = choose|kk: i64, i: int|
                    #![trigger before.dom().contains(kk), before[kk].coords@[i]]
                    kk == k && before.dom().contains(kk) && 0 <= i < before[kk].coords@.len()
                        && before[kk].coords@[i] == d;
                if kk == key {
                    let j = if now.len() == had.len() || i < at {
                        i
                    } else {
                        i + 1
                    };
                    assert(now[j] == had[i]);
                    assert(m@.dom().contains(kk) && m@[kk].coords@[j] == d);
                } else {
                    assert(m@.dom().contains(kk) && m@[kk].coords@[i] == d);
                }
            }
            if k == key && d == c {
                let j = if now.len() == had.len() {
                    at - 1
                } else {
                    at as int
                };
                assert(m@.dom().contains(key) && m@[key].coords@[j] == d);
            }
        }
    }
}

/// Whether line `key` lists a coordinate strictly between `a` and `b`.
pub fn is_line_blocked(m: &HashMap<i64, CoordLine>, key: i64, a: i64, b: i64) -> (r: bool)
    requires
        lines_ascending(m@),
    ensures
        r == line_blocked(m@, key as int, a as int, b as int),
{
    match m.get(&key) {
        Some(line) => {
            let (low, high) = if a < b {
                (a, b)
            } else {
                (b, a)
            };
            let start: usize = first_above(&line.coords, low);
            let blocked = start < line.coords.len() && line.coords[start] < high;
            proof {
                assert(m@.dom().contains(key) && m@[key] == *line);
                if blocked {
                    assert(m@[key].coords@[start as int] == line.coords@[start as int]);
                    assert(line_has(m@, key as int, line.coords@[start as int] as int));
                } else if line_blocked(m@, key as int, a as int, b as int) {
                    let c = choose|c: int| #[trigger]
                        line_has(m@, key as int, c) && strictly_between(c, a as int, b as int);
                    let (kk, i) = choose|kk: i64, i: int|
                        #![trigger m@.dom().contains(kk), m@[kk].coords@[i]]
                        kk == key && m@.dom().contains(kk) && 0 <= i < m@[kk].coords@.len()
                            && m@[kk].coords@[i] == c;
                    assert(line.coords@[i] == c);
                    assert(start <= i);
                    assert(line.coords@[start as int] <= line.coords@[i]);
                }
            }
            blocked
        },
        None => {
            assert(!line_blocked(m@, key as int, a as int, b as int));
            false
        },
    }
}

} // verus!
