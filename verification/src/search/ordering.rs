//! Table slots of squares and moves. The board is unbounded, so squares share
//! slots; which of them do is a choice of this module.
use crate::moves::Move;
use vstd::prelude::*;

verus! {

/// The slot of a square among 32.
pub open spec fn coord_slot(x: i64, y: i64) -> int {
    ((x ^ y) & 31) as int
}

/// The slot of a square among 256.
pub open spec fn square_slot(x: i64, y: i64) -> int {
    ((x ^ y) & 255) as int
}

pub fn hash_coord_32(x: i64, y: i64) -> (r: usize)
    ensures
        r == coord_slot(x, y),
        r < 32,
{
    assert(0 <= ((x ^ y) & 31) < 32) by (bit_vector);
    ((x ^ y) & 31) as usize
}

/// The slot of a move's destination.
pub fn hash_move_dest(m: &Move) -> (r: usize)
    ensures
        r == square_slot(m.to.x, m.to.y),
        r < 256,
{
    let x: i64 = m.to.x;
    let y: i64 = m.to.y;
    assert(0 <= ((x ^ y) & 255) < 256) by (bit_vector);
    ((x ^ y) & 255) as usize
}

/// The slot of a move's origin.
pub fn hash_move_from(m: &Move) -> (r: usize)
    ensures
        r == square_slot(m.from.x, m.from.y),
        r < 256,
{
    let x: i64 = m.from.x;
    let y: i64 = m.from.y;
    assert(0 <= ((x ^ y) & 255) < 256) by (bit_vector);
    ((x ^ y) & 255) as usize
}

} // verus!
