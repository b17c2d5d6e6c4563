//! Piece and square lists that stay on the stack for ordinary positions.
use crate::board::Piece;
use crate::evaluation::values::MAX_PIECES;
use smallvec::SmallVec;
use vstd::prelude::*;
use vstd::relations::{sorted_by, total_ordering};

verus! {

/// A list of squares held in a `smallvec::SmallVec`.
#[verifier::external_body]
pub struct SquareList {
    inner: SmallVec<[(i64, i64); 64]>,
}

/// A list of pieces with their squares held in a `smallvec::SmallVec`.
#[verifier::external_body]
pub struct PieceList {
    inner: SmallVec<[(i64, i64, Piece); 128]>,
}

/// The squares that a list holds, in order.
pub uninterp spec fn squares_in(list: SquareList) -> Seq<(i64, i64)>;

/// The pieces that a list holds, in order.
pub uninterp spec fn pieces_in(list: PieceList) -> Seq<(i64, i64, Piece)>;

/// The order of squares: by file, then by rank.
pub open spec fn square_le(a: (i64, i64), b: (i64, i64)) -> bool {
    a.0 < b.0 || (a.0 == b.0 && a.1 <= b.1)
}

pub open spec fn square_order() -> spec_fn((i64, i64), (i64, i64)) -> bool {
    |a: (i64, i64), b: (i64, i64)| square_le(a, b)
}

/// The squares of a list by file, then by rank.
pub open spec fn sorted_squares(s: Seq<(i64, i64)>) -> Seq<(i64, i64)> {
    s.sort_by(square_order())
}

impl SquareList {
    pub open spec fn view(&self) -> Seq<(i64, i64)> {
        squares_in(*self)
    }

    /// `smallvec::SmallVec::new`: an empty list.
    #[verifier::external_body]
    pub(crate) fn new() -> (r: SquareList)
        ensures
            squares_in(r) == Seq::<(i64, i64)>::empty(),
    {
        SquareList { inner: SmallVec::new() }
    }

    /// `smallvec::SmallVec::push`: appends a square. It panics where the list
    /// would outgrow the address space, which the length bound rules out.
    #[verifier::external_body]
    pub(crate) fn push(&mut self, square: (i64, i64))
        requires
            squares_in(*old(self)).len() < MAX_PIECES,
        ensures
            squares_in(*final(self)) == squares_in(*old(self)).push(square),
    {
        self.inner.push(square);
    }

    /// `smallvec::SmallVec::as_slice`: the squares in order.
    #[verifier::external_body]
    pub(crate) fn as_slice(&self) -> (r: &[(i64, i64)])
        ensures
            r@ == squares_in(*self),
    {
        self.inner.as_slice()
    }

    /// `sort_unstable` on `smallvec::SmallVec::as_mut_slice`: the same squares
    /// in the order of pairs, which compares first components first.
    #[verifier::external_body]
    fn sort_unstable(&mut self)
        ensures
            squares_in(*final(self)).to_multiset() == squares_in(*old(self)).to_multiset(),
            sorted_by(squares_in(*final(self)), square_order()),
    {
        self.inner.as_mut_slice().sort_unstable();
    }

    /// Puts the squares in order, by file and then by rank.
    pub(crate) fn sort(&mut self)
        ensures
            final(self)@ == sorted_squares(old(self)@),
    {
        let ghost before = self@;
        self.sort_unstable();
        proof {
            lemma_square_order_total();
            before.lemma_sort_by_ensures(square_order());
            vstd::seq_lib::lemma_sorted_unique(
                self@,
                before.sort_by(square_order()),
                square_order(),
            );
        }
    }
}

impl PieceList {
    pub open spec fn view(&self) -> Seq<(i64, i64, Piece)> {
        pieces_in(*self)
    }

    /// `smallvec::SmallVec::new`: an empty list.
    #[verifier::external_body]
    pub(crate) fn new() -> (r: PieceList)
        ensures
            pieces_in(r) == Seq::<(i64, i64, Piece)>::empty(),
    {
        PieceList { inner: SmallVec::new() }
    }

    /// `smallvec::SmallVec::push`: appends a piece. It panics where the list
    /// would outgrow the address space, which the length bound rules out.
    #[verifier::external_body]
    pub(crate) fn push(&mut self, piece: (i64, i64, Piece))
        requires
            pieces_in(*old(self)).len() < MAX_PIECES,
        ensures
            pieces_in(*final(self)) == pieces_in(*old(self)).push(piece),
    {
        self.inner.push(piece);
    }

    /// `smallvec::SmallVec::as_slice`: the pieces in order.
    #[verifier::external_body]
    pub(crate) fn as_slice(&self) -> (r: &[(i64, i64, Piece)])
        ensures
            r@ == pieces_in(*self),
    {
        self.inner.as_slice()
    }
}

pub proof fn lemma_square_order_total()
    ensures
        total_ordering(square_order()),
{
}

/// The squares are by file, then by rank.
pub open spec fn ordered(s: Seq<(i64, i64)>) -> bool {
    forall|i: int, j: int|
        #![trigger s[i], s[j]]
        0 <= i < j < s.len() ==> square_le(s[i], s[j])
}

/// Sorting keeps each square as often as it is there.
pub proof fn lemma_sorted_same(s: Seq<(i64, i64)>)
    ensures
        sorted_squares(s).to_multiset() == s.to_multiset(),
{
    lemma_square_order_total();
    s.lemma_sort_by_ensures(square_order());
}

/// Sorting keeps the number of squares and which squares there are.
pub proof fn lemma_sorted_squares(s: Seq<(i64, i64)>)
    ensures
        ordered(sorted_squares(s)),
        sorted_squares(s).len() == s.len(),
        forall|p: (i64, i64)| #[trigger] sorted_squares(s).contains(p) <==> s.contains(p),
{
    lemma_square_order_total();
    s.lemma_sort_by_ensures(square_order());
    broadcast use vstd::seq_lib::group_to_multiset_ensures;

    let t = sorted_squares(s);
    assert forall|i: int, j: int|
        #![trigger t[i], t[j]]
        0 <= i < j < t.len() implies square_le(t[i], t[j]) by {
        assert(square_order()(t[i], t[j]));
    }
    assert(sorted_squares(s).to_multiset().len() == s.to_multiset().len());
    assert forall|p: (i64, i64)| #[trigger] sorted_squares(s).contains(p) <==> s.contains(p) by {
        assert(sorted_squares(s).to_multiset().count(p) == s.to_multiset().count(p));
    }
}

} // verus!
