//! Whether the straight line between two squares is free.
use crate::arith::{abs, abs_i64};
use crate::board::{occupied, Board, Coordinate, Piece};
use crate::moves::{is_line_blocked, line_blocked, line_has, strictly_between, SpatialIndices};
use vstd::prelude::*;

verus! {

/// Whether two squares share a rank, a file or a diagonal.
pub open spec fn collinear(from: Coordinate, to: Coordinate) -> bool {
    from.x == to.x || from.y == to.y || abs(to.x - from.x) == abs(to.y - from.y)
}

/// Whether `(x, y)` lies strictly between two collinear squares.
pub open spec fn on_open_segment(x: int, y: int, from: Coordinate, to: Coordinate) -> bool {
    if from.x == to.x {
        x == from.x && strictly_between(y, from.y as int, to.y as int)
    } else if from.y == to.y {
        y == from.y && strictly_between(x, from.x as int, to.x as int)
    } else {
        &&& abs(x - from.x) == abs(y - from.y)
        &&& strictly_between(x, from.x as int, to.x as int)
        &&& strictly_between(y, from.y as int, to.y as int)
    }
}

/// The squares are collinear and no piece stands strictly between them.
pub open spec fn clear_line(s: Seq<(i64, i64, Piece)>, from: Coordinate, to: Coordinate) -> bool {
    collinear(from, to) && forall|x: int, y: int| #[trigger]
        occupied(s, x, y) ==> !on_open_segment(x, y, from, to)
}

/// What the line lists say of the line between two squares.
pub open spec fn clear_line_in(indices: SpatialIndices, from: Coordinate, to: Coordinate) -> bool {
    let dx = to.x - from.x;
    let dy = to.y - from.y;
    if !collinear(from, to) {
        false
    } else if dy == 0 {
        !line_blocked(indices.rows@, from.y as int, from.x as int, to.x as int)
    } else if dx == 0 {
        !line_blocked(indices.cols@, from.x as int, from.y as int, to.y as int)
    } else if (dx > 0) == (dy > 0) {
        !line_blocked(indices.diag1@, from.x - from.y, from.x as int, to.x as int)
    } else {
        !line_blocked(indices.diag2@, from.x + from.y, from.x as int, to.x as int)
    }
}

/// The differences of the two squares' coordinates fit in `i64`.
pub open spec fn line_fits(from: Coordinate, to: Coordinate) -> bool {
    &&& i64::MIN < to.x - from.x <= i64::MAX
    &&& i64::MIN < to.y - from.y <= i64::MAX
}

/// Whether `a` lies strictly between `b` and `c`, whichever of them is smaller.
pub fn is_between(a: i64, b: i64, c: i64) -> (r: bool)
    ensures
        r == strictly_between(a as int, b as int, c as int),
{
    let (minv, maxv) = if b < c {
        (b, c)
    } else {
        (c, b)
    };
    a > minv && a < maxv
}

/// Whether the straight line between `from` and `to` is not blocked by any
/// piece. Works for ranks, files and diagonals by visiting the pieces; squares
/// on no common line are never clear.
pub fn is_clear_line_between(board: &Board, from: &Coordinate, to: &Coordinate) -> (r: bool)
    requires
        line_fits(*from, *to),
    ensures
        r == clear_line(board@, *from, *to),
{
    let dx: i64 = to.x - from.x;
    let dy: i64 = to.y - from.y;
    if !(dx == 0 || dy == 0 || abs_i64(dx) == abs_i64(dy)) {
        return false;
    }
    let mut i: usize = 0;
    while i < board.pieces.len()
        invariant
            i <= board@.len(),
            dx == to.x - from.x,
            dy == to.y - from.y,
            line_fits(*from, *to),
            collinear(*from, *to),
            forall|k: int|
                0 <= k < i ==> !on_open_segment(
                    (#[trigger] board@[k]).0 as int,
                    board@[k].1 as int,
                    *from,
                    *to,
                ),
        decreases board@.len() - i,
    {
        let px: i64 = board.pieces[i].0;
        let py: i64 = board.pieces[i].1;
        let on_line = if dx == 0 {
            px == from.x && is_between(py, from.y, to.y)
        } else if dy == 0 {
            py == from.y && is_between(px, from.x, to.x)
        } else {
            is_between(px, from.x, to.x) && is_between(py, from.y, to.y) && abs_i64(px - from.x)
                == abs_i64(py - from.y)
        };
        assert(on_line == on_open_segment(px as int, py as int, *from, *to));
        if on_line {
            assert(board@[i as int].0 == px);
            assert(occupied(board@, px as int, py as int));
            return false;
        }
        i += 1;
    }
    assert forall|x: int, y: int| #[trigger] occupied(board@, x, y) implies !on_open_segment(
        x,
        y,
        *from,
        *to,
    ) by {
        let k = choose|k: int|
            0 <= k < board@.len() && (#[trigger] board@[k]).0 == x && board@[k].1 == y;
        assert(!on_open_segment(board@[k].0 as int, board@[k].1 as int, *from, *to));
    }
    true
}

/// [`is_clear_line_between`] by binary search in the sorted line lists.
pub fn is_clear_line_between_fast(
    indices: &SpatialIndices,
    from: &Coordinate,
    to: &Coordinate,
) -> (r: bool)
    requires
        indices.wf(),
        line_fits(*from, *to),
        i64::MIN <= from.x - from.y <= i64::MAX,
        i64::MIN <= from.x + from.y <= i64::MAX,
    ensures
        r == clear_line_in(*indices, *from, *to),
{
    let dx: i64 = to.x - from.x;
    let dy: i64 = to.y - from.y;
    if !(dx == 0 || dy == 0 || abs_i64(dx) == abs_i64(dy)) {
        return false;
    }
    if abs_i64(dx) <= 1 && abs_i64(dy) <= 1 {
        return true;
    }
    if dy == 0 {
        return !is_line_blocked(&indices.rows, from.y, from.x, to.x);
    }
    if dx == 0 {
        return !is_line_blocked(&indices.cols, from.x, from.y, to.y);
    }
    if (dx > 0) == (dy > 0) {
        return !is_line_blocked(&indices.diag1, from.x - from.y, from.x, to.x);
    }
    !is_line_blocked(&indices.diag2, from.x + from.y, from.x, to.x)
}

/// Where the line lists list the pieces of a board, binary search in them and
/// a visit of the pieces agree on every line.
pub proof fn line_lists_agree_with_board(
    indices: SpatialIndices,
    s: Seq<(i64, i64, Piece)>,
    from: Coordinate,
    to: Coordinate,
)
    requires
        indices.lists(s),
    ensures
        clear_line_in(indices, from, to) == clear_line(s, from, to),
{
    if collinear(from, to) {
        let dx = to.x - from.x;
        let dy = to.y - from.y;
        let (m, k, a, b) = if dy == 0 {
            (indices.rows@, from.y as int, from.x as int, to.x as int)
        } else if dx == 0 {
            (indices.cols@, from.x as int, from.y as int, to.y as int)
        } else if (dx > 0) == (dy > 0) {
            (indices.diag1@, from.x - from.y, from.x as int, to.x as int)
        } else {
            (indices.diag2@, from.x + from.y, from.x as int, to.x as int)
        };
        if line_blocked(m, k, a, b) {
            let c = choose|c: int| #[trigger] line_has(m, k, c) && strictly_between(c, a, b);
            let (x, y) = if dy == 0 {
                (c, from.y as int)
            } else if dx == 0 {
                (from.x as int, c)
            } else if (dx > 0) == (dy > 0) {
                (c, c - (from.x - from.y))
            } else {
                (c, from.x + from.y - c)
            };
            assert(line_has(indices.diag1@, x - y, x) <==> occupied(s, x, y));
            assert(occupied(s, x, y));
            assert(on_open_segment(x, y, from, to));
        }
        if !clear_line(s, from, to) {
            let (x, y) = choose|x: int, y: int| #[trigger]
                occupied(s, x, y) && on_open_segment(x, y, from, to);
            let c = if dx == 0 && dy != 0 {
                y
            } else {
                x
            };
            assert(line_has(indices.rows@, y, x));
            assert(line_has(m, k, c));
            assert(strictly_between(c, a, b));
        }
    }
}

/// A line is clear in both directions or in none.
pub proof fn line_is_clear_both_ways(
    s: Seq<(i64, i64, Piece)>,
    from: Coordinate,
    to: Coordinate,
)
    ensures
        clear_line(s, from, to) == clear_line(s, to, from),
{
    assert(collinear(from, to) == collinear(to, from));
    if collinear(from, to) {
        assert forall|x: int, y: int| #[trigger] occupied(s, x, y) implies on_open_segment(
            x,
            y,
            from,
            to,
        ) == on_open_segment(x, y, to, from) by {}
        if clear_line(s, from, to) {
            assert forall|x: int, y: int| #[trigger] occupied(s, x, y) implies !on_open_segment(
                x,
                y,
                to,
                from,
            ) by {
                assert(!on_open_segment(x, y, from, to));
            }
        }
        if clear_line(s, to, from) {
            assert forall|x: int, y: int| #[trigger] occupied(s, x, y) implies !on_open_segment(
                x,
                y,
                from,
                to,
            ) by {
                assert(!on_open_segment(x, y, to, from));
            }
        }
    }
}

/// Whether a value lies between two others does not depend on their order.
pub proof fn between_has_no_direction(a: int, b: int, c: int)
    ensures
        strictly_between(a, b, c) == strictly_between(a, c, b),
{
}

/// Along each of the eight directions, a line is clear exactly where no square that is
/// passed on the way is taken; the squares at its ends may be.
pub proof fn lines_are_clear_where_nothing_stands(
    s: Seq<(i64, i64, Piece)>,
    from: Coordinate,
    to: Coordinate,
    dx: int,
    dy: int,
    n: int,
)
    requires
        -1 <= dx <= 1,
        -1 <= dy <= 1,
        dx != 0 || dy != 0,
        n >= 1,
        to.x == from.x + n * dx,
        to.y == from.y + n * dy,
    ensures
        clear_line(s, from, to) <==> forall|k: int|
            1 <= k < n ==> !#[trigger] passed_over(s, from, dx, dy, k),
{
    assert(n * 0 == 0 && n * 1 == n && n * -1 == -n) by (nonlinear_arith);
    assert(collinear(from, to));
    if clear_line(s, from, to) {
        assert forall|k: int| 1 <= k < n implies !#[trigger] passed_over(s, from, dx, dy, k) by {
            assert(k * 0 == 0 && k * 1 == k && k * -1 == -k) by (nonlinear_arith);
            let x = from.x + k * dx;
            let y = from.y + k * dy;
            if occupied(s, x, y) {
                assert(on_open_segment(x, y, from, to));
            }
        }
    }
    if forall|k: int| 1 <= k < n ==> !#[trigger] passed_over(s, from, dx, dy, k) {
        assert forall|x: int, y: int| #[trigger] occupied(s, x, y) implies !on_open_segment(
            x,
            y,
            from,
            to,
        ) by {
            if on_open_segment(x, y, from, to) {
                let k = if dx == 0 {
                    abs(y - from.y)
                } else {
                    abs(x - from.x)
                };
                assert(k * 0 == 0 && k * 1 == k && k * -1 == -k) by (nonlinear_arith);
                assert(passed_over(s, from, dx, dy, k));
            }
        }
    }
}

/// The square that is passed after so many steps is taken.
pub open spec fn passed_over(
    s: Seq<(i64, i64, Piece)>,
    from: Coordinate,
    dx: int,
    dy: int,
    k: int,
) -> bool {
    occupied(s, from.x + k * dx, from.y + k * dy)
}

/// Squares that share neither rank nor file nor diagonal have no line between them.
pub proof fn leaps_are_no_lines(s: Seq<(i64, i64, Piece)>, from: Coordinate, to: Coordinate)
    requires
        from.x != to.x,
        from.y != to.y,
        to.x - from.x != to.y - from.y,
        to.x - from.x != from.y - to.y,
    ensures
        !clear_line(s, from, to),
{
}

} // verus!
