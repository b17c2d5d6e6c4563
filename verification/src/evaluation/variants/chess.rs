//! Orthodox chess: material and piece-square values that taper from middlegame
//! to endgame, mobility, pawn structure, and attacks on the king.
use crate::arith::{
    abs, abs_i64, clamp, clamp_i64, count_of, lemma_count_prefix, lemma_count_step, lemma_sum_step,
    max, min, min_i32, sum_of, tdiv,
};
use crate::board::{piece_at, Board, Coordinate, Piece, PieceType, PlayerColor};
use crate::evaluation::pieces::king_in_range;
use crate::evaluation::values::{
    in_range, is_white, of_side, piece_is_white, COORD_LIMIT, MAX_PHASE,
};
use crate::evaluation::variants::chess_tables::{eg_entry, mg_entry, EG_PST, MG_PST};
use crate::game::GameState;
use arrayvec::ArrayVec;
use vstd::prelude::*;

verus! {

pub const MG_VALUES: [i32; 6] = [82, 337, 365, 477, 1025, 0];

pub const EG_VALUES: [i32; 6] = [94, 281, 297, 512, 936, 0];

pub const MG_MOBILITY: [i32; 6] = [0, 4, 3, 2, 1, 0];

pub const EG_MOBILITY: [i32; 6] = [0, 4, 3, 4, 2, 0];

pub const MG_KING_ATTACK_WEIGHT: [i32; 6] = [0, 10, 10, 20, 40, 0];

pub const KING_SAFETY_COEFF: i32 = 2;

pub const MG_ISOLATED_PENALTY: i32 = 10;

pub const EG_ISOLATED_PENALTY: i32 = 15;

pub const MG_DOUBLED_PENALTY: i32 = 10;

pub const EG_DOUBLED_PENALTY: i32 = 10;

pub const MG_PASSED_PAWN_BONUS: [i32; 8] = [0, 0, 0, 10, 20, 40, 80, 160];

pub const EG_PASSED_PAWN_BONUS: [i32; 8] = [0, 5, 10, 20, 40, 70, 120, 200];

pub const PHASE_INC: [i32; 6] = [0, 1, 1, 2, 4, 0];

/// Boards of orthodox chess hold at most this many pieces.
pub const MAX_CHESS_PIECES: usize = 256;

/// The list of pawns holds at most this many.
pub const MAX_CHESS_PAWNS: usize = 16;

/// `arrayvec::ArrayVec`, a vector of bounded capacity.
#[verifier::external_type_specification]
#[verifier::external_body]
#[verifier::reject_recursive_types(T)]
#[verifier::reject_recursive_types(CAP)]
pub struct ExArrayVec<T, const CAP: usize>(ArrayVec<T, CAP>);

/// The pawns that a vector holds, in order: file, rank, and whether White's.
pub uninterp spec fn pawns_in(v: ArrayVec<(i64, i64, bool), 16>) -> Seq<(i64, i64, bool)>;

/// `arrayvec::ArrayVec::new`: an empty vector.
#[verifier::external_body]
fn new_pawn_vec() -> (r: ArrayVec<(i64, i64, bool), 16>)
    ensures
        pawns_in(r) == Seq::<(i64, i64, bool)>::empty(),
{
    ArrayVec::new()
}

/// `arrayvec::ArrayVec::push`: appends an element. It panics on a full vector,
/// which the length bound rules out.
#[verifier::external_body]
fn push_pawn(v: &mut ArrayVec<(i64, i64, bool), 16>, pawn: (i64, i64, bool))
    requires
        pawns_in(*old(v)).len() < 16,
    ensures
        pawns_in(*final(v)) == pawns_in(*old(v)).push(pawn),
{
    v.push(pawn);
}

/// `arrayvec::ArrayVec::as_slice`: the elements in order.
#[verifier::external_body]
fn pawn_slice(v: &ArrayVec<(i64, i64, bool), 16>) -> (r: &[(i64, i64, bool)])
    ensures
        r@ == pawns_in(*v),
{
    v.as_slice()
}

/// The number of a kind of piece in the tables; other kinds count as pawns.
pub open spec fn table_index(pt: PieceType) -> int {
    match pt {
        PieceType::Knight => 1,
        PieceType::Bishop => 2,
        PieceType::Rook => 3,
        PieceType::Queen => 4,
        PieceType::King => 5,
        _ => 0,
    }
}

fn get_piece_idx(pt: PieceType) -> (r: usize)
    ensures
        r == table_index(pt),
        r < 6,
{
    match pt {
        PieceType::Pawn => 0,
        PieceType::Knight => 1,
        PieceType::Bishop => 2,
        PieceType::Rook => 3,
        PieceType::Queen => 4,
        PieceType::King => 5,
        _ => 0,
    }
}

/// The table square of `(x, y)`, brought onto the board of eight by eight.
/// Black reads the tables from the other side.
pub open spec fn table_square(x: int, y: int, white: bool) -> int {
    let row = if white {
        8 - clamp(y, 1, 8)
    } else {
        clamp(y, 1, 8) - 1
    };
    row * 8 + clamp(x, 1, 8) - 1
}

/// The table square of White's piece on `(x, y)`: rank 8 is the first row. A black
/// piece reads the flipped one, with the row's bits inverted.
pub fn coord_to_pst_index(x: i64, y: i64) -> (r: usize)
    ensures
        r == (8 - clamp(y as int, 1, 8)) * 8 + clamp(x as int, 1, 8) - 1,
        r == table_square(x as int, y as int, true),
        r < 64,
{
    let cx: i64 = clamp_i64(x, 1, 8);
    let cy: i64 = clamp_i64(y, 1, 8);
    ((8 - cy) * 8 + cx - 1) as usize
}

/// Black reads the tables with the row's bits inverted, which for ranks on the board
/// is White's reading of the mirrored rank.
pub proof fn table_squares_flip(x: int, y: int)
    ensures
        table_square(x, y, false) as usize == table_square(x, y, true) as usize ^ 56,
        1 <= y <= 8 ==> table_square(x, 9 - y, true) as usize == table_square(x, y, true) as usize
            ^ 56,
{
    let row = (8 - clamp(y, 1, 8)) as usize;
    let col = (clamp(x, 1, 8) - 1) as usize;
    assert((row * 8 + col) as usize ^ 56 == ((7 - row) * 8 + col) as usize) by (bit_vector)
        requires
            row < 8,
            col < 8,
    ;
}

pub open spec fn on_chess_board(x: int, y: int) -> bool {
    1 <= x <= 8 && 1 <= y <= 8
}

/// How many steps along a direction stay on the board.
pub open spec fn steps_left(x: int, y: int, dx: int, dy: int) -> int {
    let n = if dx > 0 {
        9 - x
    } else if dx < 0 {
        x
    } else if dy > 0 {
        9 - y
    } else {
        y
    };
    max(n, 0)
}

/// The squares from `(x, y)` on along a direction that a piece of `color` can
/// go to: free squares, and the first enemy piece. A leaper takes one step.
pub open spec fn reach(
    board: Seq<(i64, i64, Piece)>,
    x: int,
    y: int,
    dx: int,
    dy: int,
    color: PlayerColor,
    sliding: bool,
) -> int
    decreases steps_left(x, y, dx, dy),
{
    if !on_chess_board(x, y) {
        0
    } else {
        match piece_at(board, x, y) {
            Some(p) => if p.color != color && !(p.color is Neutral) {
                1
            } else {
                0
            },
            None => if sliding && (dx != 0 || dy != 0) {
                1 + reach(board, x + dx, y + dy, dx, dy, color, sliding)
            } else {
                1
            },
        }
    }
}

/// The squares that a piece reaches along a direction.
pub open spec fn along(
    board: Seq<(i64, i64, Piece)>,
    p: (i64, i64, Piece),
    dx: int,
    dy: int,
) -> int {
    reach(board, p.0 + dx, p.1 + dy, dx, dy, p.2.color, !(p.2.piece_type is Knight))
}

pub open spec fn diagonal_mobility(board: Seq<(i64, i64, Piece)>, p: (i64, i64, Piece)) -> int {
    along(board, p, 1, 1) + along(board, p, 1, -1) + along(board, p, -1, 1) + along(
        board,
        p,
        -1,
        -1,
    )
}

pub open spec fn straight_mobility(board: Seq<(i64, i64, Piece)>, p: (i64, i64, Piece)) -> int {
    along(board, p, 1, 0) + along(board, p, -1, 0) + along(board, p, 0, 1) + along(board, p, 0, -1)
}

pub open spec fn knight_mobility(board: Seq<(i64, i64, Piece)>, p: (i64, i64, Piece)) -> int {
    along(board, p, 2, 1) + along(board, p, 2, -1) + along(board, p, -2, 1) + along(
        board,
        p,
        -2,
        -1,
    ) + along(board, p, 1, 2) + along(board, p, 1, -2) + along(board, p, -1, 2) + along(
        board,
        p,
        -1,
        -2,
    )
}

/// The number of squares that a knight, bishop, rook or queen can go to.
pub open spec fn mobility(board: Seq<(i64, i64, Piece)>, p: (i64, i64, Piece)) -> int {
    match p.2.piece_type {
        PieceType::Knight => knight_mobility(board, p),
        PieceType::Bishop => diagonal_mobility(board, p),
        PieceType::Rook => straight_mobility(board, p),
        PieceType::Queen => diagonal_mobility(board, p) + straight_mobility(board, p),
        _ => 0,
    }
}

fn count_along(board: &Board, p: (i64, i64, Piece), dx: i64, dy: i64) -> (r: i32)
    requires
        board.wf(),
        in_range(p.0 as int, p.1 as int),
        -2 <= dx <= 2,
        -2 <= dy <= 2,
        dx != 0 || dy != 0,
    ensures
        r == along(board@, p, dx as int, dy as int),
        0 <= r <= 8,
{
    let color = p.2.color;
    let sliding = p.2.piece_type != PieceType::Knight;
    let mut nx: i64 = p.0 + dx;
    let mut ny: i64 = p.1 + dy;
    let mut count: i32 = 0;
    while 1 <= nx && nx <= 8 && 1 <= ny && ny <= 8
        invariant_except_break
            board.wf(),
            -2 <= dx <= 2,
            -2 <= dy <= 2,
            dx != 0 || dy != 0,
            color == p.2.color,
            sliding == !(p.2.piece_type is Knight),
            -COORD_LIMIT - 2 <= nx <= COORD_LIMIT + 2,
            -COORD_LIMIT - 2 <= ny <= COORD_LIMIT + 2,
            count + reach(
                board@,
                nx as int,
                ny as int,
                dx as int,
                dy as int,
                color,
                sliding,
            ) == along(board@, p, dx as int, dy as int),
            0 <= count,
            count > 0 ==> count + steps_left(nx as int, ny as int, dx as int, dy as int) <= 8,
        ensures
            count == along(board@, p, dx as int, dy as int),
            0 <= count <= 8,
        decreases steps_left(nx as int, ny as int, dx as int, dy as int),
    {
        assert(1 <= steps_left(nx as int, ny as int, dx as int, dy as int) <= 8);
        match board.get_piece(nx, ny) {
            Some(q) => {
                if q.color != color && q.color != PlayerColor::Neutral {
                    count += 1;
                }
                break;
            },
            None => {},
        }
        count += 1;
        if !sliding {
            break;
        }
        nx += dx;
        ny += dy;
    }
    count
}

fn count_diagonals(board: &Board, p: (i64, i64, Piece)) -> (r: i32)
    requires
        board.wf(),
        in_range(p.0 as int, p.1 as int),
    ensures
        r == diagonal_mobility(board@, p),
        0 <= r <= 32,
{
    count_along(board, p, 1, 1) + count_along(board, p, 1, -1) + count_along(board, p, -1, 1)
        + count_along(board, p, -1, -1)
}

fn count_straights(board: &Board, p: (i64, i64, Piece)) -> (r: i32)
    requires
        board.wf(),
        in_range(p.0 as int, p.1 as int),
    ensures
        r == straight_mobility(board@, p),
        0 <= r <= 32,
{
    count_along(board, p, 1, 0) + count_along(board, p, -1, 0) + count_along(board, p, 0, 1)
        + count_along(board, p, 0, -1)
}

/// Counts the squares that a knight, bishop, rook or queen can go to.
pub fn count_mobility(board: &Board, x: i64, y: i64, piece: Piece) -> (r: i32)
    requires
        board.wf(),
        in_range(x as int, y as int),
    ensures
        r == mobility(board@, (x, y, piece)),
        0 <= r <= 64,
{
    let p = (x, y, piece);
    match piece.piece_type {
        PieceType::Knight => count_along(board, p, 2, 1) + count_along(board, p, 2, -1)
            + count_along(board, p, -2, 1) + count_along(board, p, -2, -1) + count_along(
            board,
            p,
            1,
            2,
        ) + count_along(board, p, 1, -2) + count_along(board, p, -1, 2) + count_along(
            board,
            p,
            -1,
            -2,
        ),
        PieceType::Bishop => count_diagonals(board, p),
        PieceType::Rook => count_straights(board, p),
        PieceType::Queen => {
            let diagonals: i32 = count_diagonals(board, p);
            let straights: i32 = count_straights(board, p);
            diagonals + straights
        },
        _ => 0,
    }
}

/// A piece's middlegame value for its side.
pub open spec fn mg_term(board: Seq<(i64, i64, Piece)>, white: bool) -> spec_fn(
    (i64, i64, Piece),
) -> int {
    |p: (i64, i64, Piece)|
        {
            let i = table_index(p.2.piece_type);
            if of_side(p.2, white) {
                MG_VALUES@[i] + MG_PST@[i]@[table_square(p.0 as int, p.1 as int, white)] + mobility(
                    board,
                    p,
                ) * MG_MOBILITY@[i]
            } else {
                0
            }
        }
}

/// A piece's endgame value for its side.
pub open spec fn eg_term(board: Seq<(i64, i64, Piece)>, white: bool) -> spec_fn(
    (i64, i64, Piece),
) -> int {
    |p: (i64, i64, Piece)|
        {
            let i = table_index(p.2.piece_type);
            if of_side(p.2, white) {
                EG_VALUES@[i] + EG_PST@[i]@[table_square(p.0 as int, p.1 as int, white)] + mobility(
                    board,
                    p,
                ) * EG_MOBILITY@[i]
            } else {
                0
            }
        }
}

/// What a piece adds to the phase.
pub open spec fn chess_phase_term() -> spec_fn((i64, i64, Piece)) -> int {
    |p: (i64, i64, Piece)| PHASE_INC@[table_index(p.2.piece_type)] as int
}

/// Whether a knight, bishop, rook or queen is within three squares of a king.
pub open spec fn attacks_king(p: (i64, i64, Piece), king: Coordinate) -> bool {
    1 <= table_index(p.2.piece_type) <= 4 && abs(p.0 - king.x) <= 3 && abs(p.1 - king.y) <= 3
}

/// Counts a side's attackers of a king.
pub open spec fn attacker_term(white: bool, king: Coordinate) -> spec_fn((i64, i64, Piece)) -> int {
    |p: (i64, i64, Piece)|
        if of_side(p.2, white) && attacks_king(p, king) {
            1
        } else {
            0
        }
}

/// Weighs a side's attackers of a king.
pub open spec fn attack_weight_term(white: bool, king: Coordinate) -> spec_fn(
    (i64, i64, Piece),
) -> int {
    |p: (i64, i64, Piece)|
        if of_side(p.2, white) && attacks_king(p, king) {
            MG_KING_ATTACK_WEIGHT@[table_index(p.2.piece_type)] as int
        } else {
            0
        }
}

/// The penalty for a king under attack; one attacker alone does not count.
pub open spec fn king_penalty(attackers: int, weight: int) -> int {
    if attackers >= 2 {
        tdiv(attackers * attackers * weight, 40) * KING_SAFETY_COEFF
    } else {
        0
    }
}

pub open spec fn is_pawn() -> spec_fn((i64, i64, Piece)) -> bool {
    |p: (i64, i64, Piece)| p.2.piece_type is Pawn
}

/// The pawns in order: file, rank, and whether White's.
pub open spec fn pawn_entries(s: Seq<(i64, i64, Piece)>) -> Seq<(i64, i64, bool)>
    decreases s.len(),
{
    if s.len() == 0 {
        Seq::empty()
    } else if s.last().2.piece_type is Pawn {
        pawn_entries(s.drop_last()).push((s.last().0, s.last().1, is_white(s.last().2)))
    } else {
        pawn_entries(s.drop_last())
    }
}

/// No own pawn on an adjacent file; files are brought onto the board.
pub open spec fn isolated(pawns: Seq<(i64, i64, bool)>, i: int) -> bool {
    forall|j: int|
        0 <= j < pawns.len() && (#[trigger] pawns[j]).2 == pawns[i].2 ==> abs(
            clamp(pawns[j].0 - 1, 0, 7) - clamp(pawns[i].0 - 1, 0, 7),
        ) != 1
}

/// Another own pawn on the same file.
pub open spec fn doubled(pawns: Seq<(i64, i64, bool)>, i: int) -> bool {
    exists|j: int|
        0 <= j < pawns.len() && j != i && (#[trigger] pawns[j]).2 == pawns[i].2 && pawns[j].0
            == pawns[i].0
}

/// No enemy pawn ahead on the same or an adjacent file.
pub open spec fn passed(pawns: Seq<(i64, i64, bool)>, i: int) -> bool {
    forall|j: int|
        0 <= j < pawns.len() && (#[trigger] pawns[j]).2 != pawns[i].2 && abs(
            pawns[j].0 - pawns[i].0,
        ) <= 1 ==> if pawns[i].2 {
            pawns[j].1 <= pawns[i].1
        } else {
            pawns[j].1 >= pawns[i].1
        }
}

/// A pawn's rank as its side counts it, from 0 to 7.
pub open spec fn own_rank(p: (i64, i64, bool)) -> int {
    clamp(
        if p.2 {
            p.1 - 1
        } else {
            8 - p.1
        },
        0,
        7,
    )
}

/// The middlegame score of pawn `i`.
pub open spec fn mg_pawn(pawns: Seq<(i64, i64, bool)>, i: int) -> int {
    (if isolated(pawns, i) {
        -MG_ISOLATED_PENALTY
    } else {
        0
    }) + (if doubled(pawns, i) {
        -MG_DOUBLED_PENALTY
    } else {
        0
    }) + (if passed(pawns, i) {
        MG_PASSED_PAWN_BONUS@[own_rank(pawns[i])] as int
    } else {
        0
    })
}

/// The endgame score of pawn `i`.
pub open spec fn eg_pawn(pawns: Seq<(i64, i64, bool)>, i: int) -> int {
    (if isolated(pawns, i) {
        -EG_ISOLATED_PENALTY
    } else {
        0
    }) + (if doubled(pawns, i) {
        -EG_DOUBLED_PENALTY
    } else {
        0
    }) + (if passed(pawns, i) {
        EG_PASSED_PAWN_BONUS@[own_rank(pawns[i])] as int
    } else {
        0
    })
}

/// The middlegame score of those of the first `n` pawns that are of one side.
pub open spec fn mg_pawns(pawns: Seq<(i64, i64, bool)>, white: bool, n: nat) -> int
    decreases n,
{
    if n == 0 {
        0
    } else {
        mg_pawns(pawns, white, (n - 1) as nat) + (if pawns[n - 1].2 == white {
            mg_pawn(pawns, n - 1)
        } else {
            0
        })
    }
}

/// The endgame score of those of the first `n` pawns that are of one side.
pub open spec fn eg_pawns(pawns: Seq<(i64, i64, bool)>, white: bool, n: nat) -> int
    decreases n,
{
    if n == 0 {
        0
    } else {
        eg_pawns(pawns, white, (n - 1) as nat) + (if pawns[n - 1].2 == white {
            eg_pawn(pawns, n - 1)
        } else {
            0
        })
    }
}

/// A king's square, or where it stands at the start.
pub open spec fn king_square(king: Option<Coordinate>, white: bool) -> Coordinate {
    match king {
        Some(k) => k,
        None => Coordinate {
            x: 5,
            y: if white {
                1
            } else {
                8
            },
        },
    }
}

/// A side's middlegame score.
pub open spec fn mg_score(game: GameState, white: bool) -> int {
    let s = game.board@;
    let pawns = pawn_entries(s);
    let king = if white {
        king_square(game.white_king_pos, true)
    } else {
        king_square(game.black_king_pos, false)
    };
    sum_of(s, mg_term(s, white)) + mg_pawns(pawns, white, pawns.len()) - king_penalty(
        sum_of(s, attacker_term(!white, king)),
        sum_of(s, attack_weight_term(!white, king)),
    )
}

/// A side's endgame score.
pub open spec fn eg_score(game: GameState, white: bool) -> int {
    let s = game.board@;
    let pawns = pawn_entries(s);
    sum_of(s, eg_term(s, white)) + eg_pawns(pawns, white, pawns.len())
}

/// The evaluation of a chess position from the point of view of the side to
/// move.
pub open spec fn chess_score(game: GameState) -> int {
    let side = game.turn is White;
    let phase = min(sum_of(game.board@, chess_phase_term()), MAX_PHASE as int);
    tdiv(
        (mg_score(game, side) - mg_score(game, !side)) * phase + (eg_score(game, side) - eg_score(
            game,
            !side,
        )) * (MAX_PHASE - phase),
        MAX_PHASE as int,
    )
}

/// A chess position that can be evaluated.
pub open spec fn chess_evaluable(game: GameState) -> bool {
    &&& game.board.wf()
    &&& game.board@.len() <= MAX_CHESS_PIECES
    &&& count_of(game.board@, is_pawn()) <= MAX_CHESS_PAWNS
    &&& forall|i: int|
        0 <= i < game.board@.len() ==> in_range(
            (#[trigger] game.board@[i]).0 as int,
            game.board@[i].1 as int,
        )
    &&& king_in_range(game.white_king_pos)
    &&& king_in_range(game.black_king_pos)
}

fn is_isolated(pawns: &[(i64, i64, bool)], i: usize) -> (r: bool)
    requires
        i < pawns@.len(),
        pawns_in_range(pawns@),
    ensures
        r == isolated(pawns@, i as int),
{
    let file: i64 = clamp_i64(pawns[i].0 - 1, 0, 7);
    let white = pawns[i].2;
    let mut j: usize = 0;
    while j < pawns.len()
        invariant
            i < pawns@.len(),
            j <= pawns@.len(),
            pawns_in_range(pawns@),
            file == clamp(pawns@[i as int].0 - 1, 0, 7),
            white == pawns@[i as int].2,
            forall|k: int|
                0 <= k < j && (#[trigger] pawns@[k]).2 == pawns@[i as int].2 ==> abs(
                    clamp(pawns@[k].0 - 1, 0, 7) - clamp(pawns@[i as int].0 - 1, 0, 7),
                ) != 1,
        decreases pawns@.len() - j,
    {
        let q = pawns[j];
        assert(pawns@[j as int] == q);
        if q.2 == white && abs_i64(clamp_i64(q.0 - 1, 0, 7) - file) == 1 {
            return false;
        }
        j += 1;
    }
    true
}

fn is_doubled(pawns: &[(i64, i64, bool)], i: usize) -> (r: bool)
    requires
        i < pawns@.len(),
    ensures
        r == doubled(pawns@, i as int),
{
    let p = pawns[i];
    assert(pawns@[i as int] == p);
    let mut j: usize = 0;
    while j < pawns.len()
        invariant
            i < pawns@.len(),
            j <= pawns@.len(),
            p == pawns@[i as int],
            forall|k: int|
                0 <= k < j && k != i ==> (#[trigger] pawns@[k]).2 != p.2 || pawns@[k].0 != p.0,
        decreases pawns@.len() - j,
    {
        let q = pawns[j];
        assert(pawns@[j as int] == q);
        if j != i && q.2 == p.2 && q.0 == p.0 {
            return true;
        }
        j += 1;
    }
    false
}

fn is_passed(pawns: &[(i64, i64, bool)], i: usize) -> (r: bool)
    requires
        i < pawns@.len(),
        pawns_in_range(pawns@),
    ensures
        r == passed(pawns@, i as int),
{
    let p = pawns[i];
    assert(pawns@[i as int] == p);
    let mut j: usize = 0;
    while j < pawns.len()
        invariant
            i < pawns@.len(),
            j <= pawns@.len(),
            pawns_in_range(pawns@),
            p == pawns@[i as int],
            forall|k: int|
                0 <= k < j && (#[trigger] pawns@[k]).2 != p.2 && abs(pawns@[k].0 - p.0) <= 1
                    ==> if p.2 {
                    pawns@[k].1 <= p.1
                } else {
                    pawns@[k].1 >= p.1
                },
        decreases pawns@.len() - j,
    {
        let q = pawns[j];
        assert(pawns@[j as int] == q);
        if q.2 != p.2 && abs_i64(q.0 - p.0) <= 1 && ((p.2 && q.1 > p.1) || (!p.2 && q.1 < p.1)) {
            return false;
        }
        j += 1;
    }
    true
}

/// Every pawn stands on a square in range.
pub open spec fn pawns_in_range(pawns: Seq<(i64, i64, bool)>) -> bool {
    forall|i: int|
        0 <= i < pawns.len() ==> in_range((#[trigger] pawns[i]).0 as int, pawns[i].1 as int)
}

/// The middlegame and endgame scores of a side's pawns.
fn evaluate_chess_pawns(pawns: &[(i64, i64, bool)], white: bool) -> (r: (i32, i32))
    requires
        pawns_in_range(pawns@),
        pawns@.len() <= MAX_CHESS_PAWNS,
    ensures
        r.0 == mg_pawns(pawns@, white, pawns@.len()),
        r.1 == eg_pawns(pawns@, white, pawns@.len()),
        -400 <= r.0 <= 4000,
        -400 <= r.1 <= 4000,
{
    let mut mg: i32 = 0;
    let mut eg: i32 = 0;
    let mut i: usize = 0;
    while i < pawns.len()
        invariant
            i <= pawns@.len(),
            pawns_in_range(pawns@),
            pawns@.len() <= MAX_CHESS_PAWNS,
            mg == mg_pawns(pawns@, white, i as nat),
            eg == eg_pawns(pawns@, white, i as nat),
            -25 * i <= mg <= 200 * i,
            -25 * i <= eg <= 200 * i,
        decreases pawns@.len() - i,
    {
        let p = pawns[i];
        assert(pawns@[i as int] == p);
        if p.2 == white {
            if is_isolated(pawns, i) {
                mg -= MG_ISOLATED_PENALTY;
                eg -= EG_ISOLATED_PENALTY;
            }
            if is_doubled(pawns, i) {
                mg -= MG_DOUBLED_PENALTY;
                eg -= EG_DOUBLED_PENALTY;
            }
            if is_passed(pawns, i) {
                let raw: i64 = if p.2 {
                    p.1 - 1
                } else {
                    8 - p.1
                };
                let rank: usize = clamp_i64(raw, 0, 7) as usize;
                mg += MG_PASSED_PAWN_BONUS[rank];
                eg += EG_PASSED_PAWN_BONUS[rank];
            }
        }
        i += 1;
    }
    (mg, eg)
}

/// Collects the pawns.
fn collect_chess_pawns(board: &Board) -> (r: ArrayVec<(i64, i64, bool), 16>)
    requires
        count_of(board@, is_pawn()) <= MAX_CHESS_PAWNS,
        forall|i: int|
            0 <= i < board@.len() ==> in_range(
                (#[trigger] board@[i]).0 as int,
                board@[i].1 as int,
            ),
    ensures
        pawns_in(r) == pawn_entries(board@),
        pawns_in_range(pawns_in(r)),
        pawns_in(r).len() <= MAX_CHESS_PAWNS,
{
    let mut pawns = new_pawn_vec();
    let mut i: usize = 0;
    while i < board.pieces.len()
        invariant
            i <= board@.len(),
            count_of(board@, is_pawn()) <= MAX_CHESS_PAWNS,
            forall|i: int|
                0 <= i < board@.len() ==> in_range(
                    (#[trigger] board@[i]).0 as int,
                    board@[i].1 as int,
                ),
            pawns_in(pawns) == pawn_entries(board@.take(i as int)),
            pawns_in(pawns).len() == count_of(board@.take(i as int), is_pawn()),
            pawns_in_range(pawns_in(pawns)),
        decreases board@.len() - i,
    {
        let (x, y, piece) = board.pieces[i];
        assert(board@[i as int] == (x, y, piece));
        assert(board@.take(i + 1).drop_last() =~= board@.take(i as int));
        assert(board@.take(i + 1).last() == (x, y, piece));
        proof {
            lemma_count_step(board@, i as int, is_pawn());
            lemma_count_prefix(board@, i + 1, is_pawn());
        }
        if piece.piece_type == PieceType::Pawn {
            push_pawn(&mut pawns, (x, y, piece_is_white(piece)));
        }
        i += 1;
    }
    assert(board@.take(i as int) =~= board@);
    pawns
}

/// A side's values over all pieces.
struct SideValues {
    mg: i32,
    eg: i32,
    attackers: i32,
    weight: i32,
}

fn evaluate_chess_side(board: &Board, white: bool, target: &Coordinate) -> (r: SideValues)
    requires
        board.wf(),
        board@.len() <= MAX_CHESS_PIECES,
        forall|i: int|
            0 <= i < board@.len() ==> in_range(
                (#[trigger] board@[i]).0 as int,
                board@[i].1 as int,
            ),
        in_range(target.x as int, target.y as int),
    ensures
        r.mg == sum_of(board@, mg_term(board@, white)),
        r.eg == sum_of(board@, eg_term(board@, white)),
        r.attackers == sum_of(board@, attacker_term(white, *target)),
        r.weight == sum_of(board@, attack_weight_term(white, *target)),
        -200 * MAX_CHESS_PIECES <= r.mg <= 2000 * MAX_CHESS_PIECES,
        -200 * MAX_CHESS_PIECES <= r.eg <= 2000 * MAX_CHESS_PIECES,
        0 <= r.attackers <= MAX_CHESS_PIECES,
        0 <= r.weight <= 40 * MAX_CHESS_PIECES,
{
    let mut r = SideValues { mg: 0, eg: 0, attackers: 0, weight: 0 };
    let mut i: usize = 0;
    while i < board.pieces.len()
        invariant
            i <= board@.len(),
            board.wf(),
            board@.len() <= MAX_CHESS_PIECES,
            forall|i: int|
                0 <= i < board@.len() ==> in_range(
                    (#[trigger] board@[i]).0 as int,
                    board@[i].1 as int,
                ),
            in_range(target.x as int, target.y as int),
            r.mg == sum_of(board@.take(i as int), mg_term(board@, white)),
            r.eg == sum_of(board@.take(i as int), eg_term(board@, white)),
            r.attackers == sum_of(board@.take(i as int), attacker_term(white, *target)),
            r.weight == sum_of(board@.take(i as int), attack_weight_term(white, *target)),
            -200 * i <= r.mg <= 2000 * i,
            -200 * i <= r.eg <= 2000 * i,
            0 <= r.attackers <= i,
            0 <= r.weight <= 40 * i,
        decreases board@.len() - i,
    {
        let (x, y, piece) = board.pieces[i];
        assert(board@[i as int] == (x, y, piece));
        proof {
            lemma_sum_step(board@, i as int, mg_term(board@, white));
            lemma_sum_step(board@, i as int, eg_term(board@, white));
            lemma_sum_step(board@, i as int, attacker_term(white, *target));
            lemma_sum_step(board@, i as int, attack_weight_term(white, *target));
        }
        if piece_is_white(piece) == white {
            let idx: usize = get_piece_idx(piece.piece_type);
            let mut sq: usize = coord_to_pst_index(x, y);
            if !white {
                proof {
                    table_squares_flip(x as int, y as int);
                }
                sq = sq ^ 56;
            }
            let moves: i32 = count_mobility(board, x, y, piece);
            let mg_weight: i32 = MG_MOBILITY[idx];
            let eg_weight: i32 = EG_MOBILITY[idx];
            assert(0 <= moves * mg_weight <= 256) by (nonlinear_arith)
                requires
                    0 <= moves <= 64,
                    0 <= mg_weight <= 4,
            ;
            assert(0 <= moves * eg_weight <= 256) by (nonlinear_arith)
                requires
                    0 <= moves <= 64,
                    0 <= eg_weight <= 4,
            ;
            let mg_value: i32 = MG_VALUES[idx] + mg_entry(idx, sq) + moves * mg_weight;
            let eg_value: i32 = EG_VALUES[idx] + eg_entry(idx, sq) + moves * eg_weight;
            let near = 1 <= idx && idx <= 4 && abs_i64(x - target.x) <= 3 && abs_i64(y - target.y)
                <= 3;
            r =
            SideValues {
                mg: r.mg + mg_value,
                eg: r.eg + eg_value,
                attackers: if near {
                    r.attackers + 1
                } else {
                    r.attackers
                },
                weight: if near {
                    r.weight + MG_KING_ATTACK_WEIGHT[idx]
                } else {
                    r.weight
                },
            };
        }
        i += 1;
    }
    assert(board@.take(i as int) =~= board@);
    r
}

fn king_penalty_of(attackers: i32, weight: i32) -> (r: i32)
    requires
        0 <= attackers <= MAX_CHESS_PIECES,
        0 <= weight <= 40 * MAX_CHESS_PIECES,
    ensures
        r == king_penalty(attackers as int, weight as int),
        0 <= r <= 40_000_000,
{
    if attackers >= 2 {
        assert(0 <= attackers * attackers <= 65536) by (nonlinear_arith)
            requires
                0 <= attackers <= 256,
        ;
        let square: i32 = attackers * attackers;
        assert(0 <= square * weight <= 65536 * 10240) by (nonlinear_arith)
            requires
                0 <= square <= 65536,
                0 <= weight <= 10240,
        ;
        let penalty: i32 = square * weight / 40;
        penalty * KING_SAFETY_COEFF
    } else {
        0
    }
}

fn count_chess_phase(board: &Board) -> (r: i32)
    requires
        board@.len() <= MAX_CHESS_PIECES,
    ensures
        r == sum_of(board@, chess_phase_term()),
        0 <= r <= 4 * MAX_CHESS_PIECES,
{
    let mut phase: i32 = 0;
    let mut i: usize = 0;
    while i < board.pieces.len()
        invariant
            i <= board@.len(),
            board@.len() <= MAX_CHESS_PIECES,
            phase == sum_of(board@.take(i as int), chess_phase_term()),
            0 <= phase <= 4 * i,
        decreases board@.len() - i,
    {
        let piece = board.pieces[i].2;
        assert(board@[i as int].2 == piece);
        proof {
            lemma_sum_step(board@, i as int, chess_phase_term());
        }
        phase += PHASE_INC[get_piece_idx(piece.piece_type)];
        i += 1;
    }
    assert(board@.take(i as int) =~= board@);
    phase
}

/// Evaluates a chess position from the point of view of the side to move.
pub fn evaluate(game: &GameState) -> (r: i32)
    requires
        chess_evaluable(*game),
    ensures
        r == chess_score(*game),
{
    let white_king = match game.white_king_pos {
        Some(k) => k,
        None => Coordinate { x: 5, y: 1 },
    };
    let black_king = match game.black_king_pos {
        Some(k) => k,
        None => Coordinate { x: 5, y: 8 },
    };
    let w = evaluate_chess_side(&game.board, true, &black_king);
    let b = evaluate_chess_side(&game.board, false, &white_king);
    let pawns = collect_chess_pawns(&game.board);
    let (w_mg_pawns, w_eg_pawns) = evaluate_chess_pawns(pawn_slice(&pawns), true);
    let (b_mg_pawns, b_eg_pawns) = evaluate_chess_pawns(pawn_slice(&pawns), false);
    let w_mg: i32 = w.mg + w_mg_pawns - king_penalty_of(b.attackers, b.weight);
    let b_mg: i32 = b.mg + b_mg_pawns - king_penalty_of(w.attackers, w.weight);
    let w_eg: i32 = w.eg + w_eg_pawns;
    let b_eg: i32 = b.eg + b_eg_pawns;
    assert(w_mg == mg_score(*game, true));
    assert(b_mg == mg_score(*game, false));
    let white_to_move = game.turn == PlayerColor::White;
    let mg: i32 = if white_to_move {
        w_mg - b_mg
    } else {
        b_mg - w_mg
    };
    let eg: i32 = if white_to_move {
        w_eg - b_eg
    } else {
        b_eg - w_eg
    };
    let mg_phase: i32 = min_i32(count_chess_phase(&game.board), MAX_PHASE);
    let eg_phase: i32 = MAX_PHASE - mg_phase;
    assert(-45_000_000 * 24 <= mg * mg_phase <= 45_000_000 * 24) by (nonlinear_arith)
        requires
            -45_000_000 <= mg <= 45_000_000,
            0 <= mg_phase <= 24,
    ;
    assert(-2_000_000 * 24 <= eg * eg_phase <= 2_000_000 * 24) by (nonlinear_arith)
        requires
            -2_000_000 <= eg <= 2_000_000,
            0 <= eg_phase <= 24,
    ;
    (mg * mg_phase + eg * eg_phase) / MAX_PHASE
}

} // verus!
