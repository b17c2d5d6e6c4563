//! Pieces, squares and the set of pieces on an unbounded board.
use vstd::prelude::*;

verus! {

/// The kinds of pieces, the two blocking kinds first.
#[derive(Clone, Copy, PartialEq, Eq, Structural, Debug, Hash)]
pub enum PieceType {
    Void,
    Obstacle,
    King,
    Guard,
    Rook,
    Bishop,
    Knight,
    Pawn,
    Queen,
    Camel,
    Giraffe,
    Zebra,
    Knightrider,
    Amazon,
    Hawk,
    Chancellor,
    Archbishop,
    Centaur,
    RoyalQueen,
    RoyalCentaur,
    Rose,
    Huygen,
}

#[derive(Clone, Copy, PartialEq, Eq, Structural, Debug, Hash)]
pub enum PlayerColor {
    White,
    Black,
    Neutral,
}

#[derive(Clone, Copy, PartialEq, Eq, Structural, Debug, Hash)]
pub struct Coordinate {
    pub x: i64,
    pub y: i64,
}

#[derive(Clone, Copy, PartialEq, Eq, Structural, Debug, Hash)]
pub struct Piece {
    pub piece_type: PieceType,
    pub color: PlayerColor,
}

impl Coordinate {
    pub fn new(x: i64, y: i64) -> (r: Coordinate)
        ensures
            r == (Coordinate { x, y }),
    {
        Coordinate { x, y }
    }
}

impl PlayerColor {
    pub open spec fn opponent_spec(self) -> PlayerColor {
        match self {
            PlayerColor::White => PlayerColor::Black,
            PlayerColor::Black => PlayerColor::White,
            PlayerColor::Neutral => PlayerColor::Neutral,
        }
    }

    pub fn opponent(self) -> (r: PlayerColor)
        ensures
            r == self.opponent_spec(),
    {
        match self {
            PlayerColor::White => PlayerColor::Black,
            PlayerColor::Black => PlayerColor::White,
            PlayerColor::Neutral => PlayerColor::Neutral,
        }
    }
}

impl PieceType {
    /// The king and the two royal compounds can be checked.
    pub open spec fn royal(self) -> bool {
        self is King || self is RoyalQueen || self is RoyalCentaur
    }

    pub fn is_royal(self) -> (r: bool)
        ensures
            r == self.royal(),
    {
        matches!(self, PieceType::King | PieceType::RoyalQueen | PieceType::RoyalCentaur)
    }

    /// The kinds that only block and belong to neither side.
    pub open spec fn neutral(self) -> bool {
        self is Void || self is Obstacle
    }

    pub fn is_neutral_type(self) -> (r: bool)
        ensures
            r == self.neutral(),
    {
        matches!(self, PieceType::Void | PieceType::Obstacle)
    }

    /// A stable number below 32 for each kind, used to address tables.
    pub open spec fn index_spec(self) -> int {
        match self {
            PieceType::Void => 0,
            PieceType::Obstacle => 1,
            PieceType::King => 2,
            PieceType::Guard => 3,
            PieceType::Rook => 4,
            PieceType::Bishop => 5,
            PieceType::Knight => 6,
            PieceType::Pawn => 7,
            PieceType::Queen => 8,
            PieceType::Camel => 9,
            PieceType::Giraffe => 10,
            PieceType::Zebra => 11,
            PieceType::Knightrider => 12,
            PieceType::Amazon => 13,
            PieceType::Hawk => 14,
            PieceType::Chancellor => 15,
            PieceType::Archbishop => 16,
            PieceType::Centaur => 17,
            PieceType::RoyalQueen => 18,
            PieceType::RoyalCentaur => 19,
            PieceType::Rose => 20,
            PieceType::Huygen => 21,
        }
    }

    pub fn index(self) -> (r: usize)
        ensures
            r == self.index_spec(),
            r < 32,
    {
        match self {
            PieceType::Void => 0,
            PieceType::Obstacle => 1,
            PieceType::King => 2,
            PieceType::Guard => 3,
            PieceType::Rook => 4,
            PieceType::Bishop => 5,
            PieceType::Knight => 6,
            PieceType::Pawn => 7,
            PieceType::Queen => 8,
            PieceType::Camel => 9,
            PieceType::Giraffe => 10,
            PieceType::Zebra => 11,
            PieceType::Knightrider => 12,
            PieceType::Amazon => 13,
            PieceType::Hawk => 14,
            PieceType::Chancellor => 15,
            PieceType::Archbishop => 16,
            PieceType::Centaur => 17,
            PieceType::RoyalQueen => 18,
            PieceType::RoyalCentaur => 19,
            PieceType::Rose => 20,
            PieceType::Huygen => 21,
        }
    }

    pub proof fn lemma_index(self)
        ensures
            0 <= self.index_spec() < 32,
    {
    }
}

impl Piece {
    pub fn new(piece_type: PieceType, color: PlayerColor) -> (r: Piece)
        ensures
            r == (Piece { piece_type, color }),
    {
        Piece { piece_type, color }
    }
}

/// The pieces on the board, in the order in which they are visited.
pub struct Board {
    pub pieces: Vec<(i64, i64, Piece)>,
}

/// Whether square `(x, y)` holds a piece in `s`.
pub open spec fn occupied(s: Seq<(i64, i64, Piece)>, x: int, y: int) -> bool {
    exists|i: int| 0 <= i < s.len() && (#[trigger] s[i]).0 == x && s[i].1 == y
}

/// The piece on `(x, y)`, if there is one; on a board each square holds at
/// most one.
pub open spec fn piece_at(s: Seq<(i64, i64, Piece)>, x: int, y: int) -> Option<Piece> {
    if occupied(s, x, y) {
        Some(s[choose|i: int| 0 <= i < s.len() && (#[trigger] s[i]).0 == x && s[i].1 == y].2)
    } else {
        None
    }
}

impl Board {
    pub open spec fn view(&self) -> Seq<(i64, i64, Piece)> {
        self.pieces@
    }

    /// No square is listed twice.
    pub open spec fn wf(&self) -> bool {
        forall|i: int, j: int|
            0 <= i < j < self@.len() ==> (#[trigger] self@[i]).0 != (#[trigger] self@[j]).0
                || self@[i].1 != self@[j].1
    }

    pub fn new() -> (r: Board)
        ensures
            r.wf(),
            r@ == Seq::<(i64, i64, Piece)>::empty(),
    {
        Board { pieces: Vec::new() }
    }

    fn find(&self, x: i64, y: i64) -> (r: Option<usize>)
        ensures
            match r {
                Some(i) => i < self@.len() && self@[i as int].0 == x && self@[i as int].1 == y,
                None => !occupied(self@, x as int, y as int),
            },
    {
        let mut i: usize = 0;
        while i < self.pieces.len()
            invariant
                i <= self@.len(),
                forall|k: int|
                    0 <= k < i ==> (#[trigger] self@[k]).0 != x || self@[k].1 != y,
            decreases self@.len() - i,
        {
            if self.pieces[i].0 == x && self.pieces[i].1 == y {
                return Some(i);
            }
            i += 1;
        }
        None
    }

    /// The piece on `(x, y)`; where the square is listed more than once, one of
    /// its pieces.
    pub fn get_piece(&self, x: i64, y: i64) -> (r: Option<Piece>)
        ensures
            self.wf() ==> r == piece_at(self@, x as int, y as int),
            match r {
                Some(p) => self@.contains((x, y, p)),
                None => !occupied(self@, x as int, y as int),
            },
    {
        match self.find(x, y) {
            Some(i) => {
                assert(self@[i as int].0 == x);
                Some(self.pieces[i].2)
            },
            None => None,
        }
    }

    pub fn is_occupied(&self, x: i64, y: i64) -> (r: bool)
        ensures
            r == occupied(self@, x as int, y as int),
    {
        match self.find(x, y) {
            Some(i) => {
                assert(self@[i as int].0 == x);
                true
            },
            None => false,
        }
    }
}

/// A square holds the piece that is listed there, and none where none is.
pub proof fn squares_hold_what_is_listed(s: Seq<(i64, i64, Piece)>, i: int, x: int, y: int)
    requires
        forall|j: int, k: int|
            0 <= j < k < s.len() ==> (#[trigger] s[j]).0 != (#[trigger] s[k]).0 || s[j].1
                != s[k].1,
    ensures
        0 <= i < s.len() ==> piece_at(s, s[i].0 as int, s[i].1 as int) == Some(s[i].2),
        (forall|j: int| 0 <= j < s.len() ==> (#[trigger] s[j]).0 != x || s[j].1 != y) ==> piece_at(
            s,
            x,
            y,
        ) is None,
{
    if 0 <= i < s.len() {
        let p = s[i];
        assert(occupied(s, p.0 as int, p.1 as int));
        let j = choose|j: int| 0 <= j < s.len() && (#[trigger] s[j]).0 == p.0 && s[j].1 == p.1;
        assert(j == i);
    }
}

} // verus!
